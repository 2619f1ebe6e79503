//! The kinds of snapshot, including the one taken at boot.
use vstd::prelude::*;
use crate::text::str_eq;

verus! {

/// Why a snapshot was taken.
#[derive(Debug, PartialEq, Eq, Structural, Clone, Copy)]
pub enum SnapshotType {
    Manually,
    Daily,
    Monthly,
    Weekly,
    Boot,
}

impl SnapshotType {
    /// The type a name stands for: each type's name, capitalised or not.
    pub open spec fn from_name_spec(s: Seq<char>) -> Option<SnapshotType> {
        if s == "Manually"@ || s == "manually"@ {
            Some(SnapshotType::Manually)
        } else if s == "Daily"@ || s == "daily"@ {
            Some(SnapshotType::Daily)
        } else if s == "Monthly"@ || s == "monthly"@ {
            Some(SnapshotType::Monthly)
        } else if s == "Weekly"@ || s == "weekly"@ {
            Some(SnapshotType::Weekly)
        } else if s == "Boot"@ || s == "boot"@ {
            Some(SnapshotType::Boot)
        } else {
            None
        }
    }

    /// The lower-case name of the type, as it appears in snapshot paths.
    pub open spec fn name_spec(self) -> Seq<char> {
        match self {
            SnapshotType::Manually => "manually"@,
            SnapshotType::Daily => "daily"@,
            SnapshotType::Weekly => "weekly"@,
            SnapshotType::Monthly => "monthly"@,
            SnapshotType::Boot => "boot"@,
        }
    }

    /// Parses a type from its name, capitalised or not.
    pub fn get_type(string: &str) -> (r: Option<Self>)
        ensures
            r == Self::from_name_spec(string@),
    {
        if str_eq(string, "Manually") || str_eq(string, "manually") {
            Some(SnapshotType::Manually)
        } else if str_eq(string, "Daily") || str_eq(string, "daily") {
            Some(SnapshotType::Daily)
        } else if str_eq(string, "Monthly") || str_eq(string, "monthly") {
            Some(SnapshotType::Monthly)
        } else if str_eq(string, "Weekly") || str_eq(string, "weekly") {
            Some(SnapshotType::Weekly)
        } else if str_eq(string, "Boot") || str_eq(string, "boot") {
            Some(SnapshotType::Boot)
        } else {
            None
        }
    }

    /// The lower-case name of the type.
    pub fn as_ref(&self) -> (r: &'static str)
        ensures
            r@ == self.name_spec(),
    {
        match self {
            SnapshotType::Manually => "manually",
            SnapshotType::Daily => "daily",
            SnapshotType::Weekly => "weekly",
            SnapshotType::Monthly => "monthly",
            SnapshotType::Boot => "boot",
        }
    }

    /// The type as it is displayed: its lower-case name.
    pub fn to_string(&self) -> (r: String)
        ensures
            r@ == self.name_spec(),
    {
        String::from_str(self.as_ref())
    }
}

/// Parsing the displayed name of a type gives back the type.
pub proof fn lemma_name_round_trip(t: SnapshotType)
    ensures
        SnapshotType::from_name_spec(t.name_spec()) == Some(t),
{
    reveal_strlit("Manually");
    reveal_strlit("manually");
    reveal_strlit("Daily");
    reveal_strlit("daily");
    reveal_strlit("Monthly");
    reveal_strlit("monthly");
    reveal_strlit("Weekly");
    reveal_strlit("weekly");
    reveal_strlit("Boot");
    reveal_strlit("boot");
    assert("daily"@.len() != "Manually"@.len());
    assert("daily"@.len() != "manually"@.len());
    assert("monthly"@.len() != "Manually"@.len());
    assert("monthly"@.len() != "manually"@.len());
    assert("monthly"@.len() != "Daily"@.len());
    assert("monthly"@.len() != "daily"@.len());
    assert("weekly"@.len() != "Manually"@.len());
    assert("weekly"@.len() != "manually"@.len());
    assert("weekly"@.len() != "Daily"@.len());
    assert("weekly"@.len() != "daily"@.len());
    assert("weekly"@.len() != "Monthly"@.len());
    assert("weekly"@.len() != "monthly"@.len());
    assert("boot"@.len() != "Manually"@.len());
    assert("boot"@.len() != "manually"@.len());
    assert("boot"@.len() != "Daily"@.len());
    assert("boot"@.len() != "daily"@.len());
    assert("boot"@.len() != "Monthly"@.len());
    assert("boot"@.len() != "monthly"@.len());
    assert("boot"@.len() != "Weekly"@.len());
    assert("boot"@.len() != "weekly"@.len());
}

} // verus!
