use vstd::prelude::*;

verus! {

/// How one user stands to another in a family row.
#[derive(Debug, Clone, Copy, PartialEq, Eq, Structural)]
pub enum Relationships {
    Partner,
    Parent,
    Child,
    /// Neither partner, parent nor child; shown as "None".
    Unrelated,
}

impl Relationships {
    /// The name under which a relationship is shown to users.
    pub open spec fn label(self) -> Seq<char> {
        match self {
            Relationships::Partner => "Partner"@,
            Relationships::Parent => "Parent"@,
            Relationships::Child => "Child"@,
            Relationships::Unrelated => "None"@,
        }
    }

    /// The relationship's name, as it is written into messages.
    pub fn to_string(&self) -> (s: String)
        ensures
            s@ == self.label(),
    {
        match self {
            Relationships::Partner => String::from_str("Partner"),
            Relationships::Parent => String::from_str("Parent"),
            Relationships::Child => String::from_str("Child"),
            Relationships::Unrelated => String::from_str("None"),
        }
    }
}

} // verus!
