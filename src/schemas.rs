use vstd::prelude::*;

verus! {

pub open spec fn common_schema_text() -> Seq<char> {
    "model A {
            #id(id, Int, @id)
            field String?
            #relation(bs, B, ...)
        }"@
}

/// A schema template shared by connector tests.
pub fn some_common_schema() -> (r: String)
    ensures
        r@ == common_schema_text(),
{
    String::from_str(
        "model A {
            #id(id, Int, @id)
            field String?
            #relation(bs, B, ...)
        }",
    )
}

} // verus!
