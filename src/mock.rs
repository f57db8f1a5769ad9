use vstd::prelude::*;

verus! {

/// A stored message, as the demo data source hands it out.
pub struct MockRecord {
    pub id: &'static str,
    pub message: &'static str,
}

/// The fixed records of the demo data source.
pub fn call_to_the_database_mock() -> (r: [MockRecord; 1])
    ensures
        r@[0].id@ == "1234"@,
        r@[0].message@ == "TestMessage"@,
{
    [MockRecord { id: "1234", message: "TestMessage" }]
}

} // verus!
