//! The whole of the generated code for a schema.

use vstd::prelude::*;
use crate::enums::{enums_text, write_enums};
use crate::errors::GenError;
use crate::metadata::{metadata_of, Metadata};
use crate::resolve::{is_resolved, schema_resolved};
use crate::structs::{structs_text, written, write_structs};
use crate::text::{decimal, lit, put, put_bytes, put_decimal};
use crate::types::{CombinatorDecl, SchemaView, TLSchema};

verus! {

/// The line that silences the lints that generated names set off.
pub open spec fn allow_line() -> Seq<u8> {
    lit("#[allow(clippy::large_enum_variant, non_snake_case)]\n")
}

/// The code generated for a schema: the layer as a constant, the module of
/// records, the module of sum types, and an empty module for functions.
/// There is none where a declaration has no id, where a field uses a name
/// that is not known, or where the schema holds a shape without a rule.
pub open spec fn generated(s: SchemaView, layer: u32) -> Result<Seq<u8>, GenError> {
    if !s.has_ids() {
        Err(GenError::UnresolvedId)
    } else if !schema_resolved(s) {
        Err(GenError::UnresolvedIdentifier)
    } else {
        match structs_text(metadata_of(s)) {
            Ok(types) => match enums_text(metadata_of(s)) {
                Ok(enums) => Ok(
                    lit("pub const LAYER: u32 = ") + decimal(layer as nat) + lit(";\n")
                        + allow_line() + types + allow_line() + enums + allow_line() + lit(
                        "pub mod functions {\n",
                    ) + lit("}\n") + lit("\n"),
                ),
                Err(e) => Err(e),
            },
            Err(e) => Err(e),
        }
    }
}

fn all_have_ids(decls: &Vec<CombinatorDecl>) -> (r: bool)
    ensures
        r == (forall|i: int|
            0 <= i < decls@.len() ==> (#[trigger] crate::types::decls_view(decls@)[i]).id is Some),
{
    let mut i: usize = 0;
    while i < decls.len()
        invariant
            i <= decls@.len(),
            forall|j: int|
                0 <= j < i ==> (#[trigger] crate::types::decls_view(decls@)[j]).id is Some,
        decreases decls@.len() - i,
    {
        assert(crate::types::decls_view(decls@)[i as int] == decls@[i as int]@);
        if decls[i].id.is_none() {
            return false;
        }
        i += 1;
    }
    true
}

/// Appends the code generated for a schema. On an error nothing is
/// appended.
pub fn generate_code(f: &mut Vec<u8>, schema: TLSchema, layer: u32) -> (r: Result<(), GenError>)
    ensures
        written(r, old(f)@, final(f)@, generated(schema@, layer)),
{
    if !all_have_ids(&schema.funcs) || !all_have_ids(&schema.constrs) {
        return Err(GenError::UnresolvedId);
    }
    if !is_resolved(&schema) {
        return Err(GenError::UnresolvedIdentifier);
    }
    let meta = Metadata::new(&schema);
    let mut out: Vec<u8> = Vec::new();
    put(&mut out, "pub const LAYER: u32 = ");
    put_decimal(&mut out, layer as u64);
    put(&mut out, ";\n");
    put(&mut out, "#[allow(clippy::large_enum_variant, non_snake_case)]\n");
    write_structs(&mut out, &meta)?;
    put(&mut out, "#[allow(clippy::large_enum_variant, non_snake_case)]\n");
    write_enums(&mut out, &meta)?;
    put(&mut out, "#[allow(clippy::large_enum_variant, non_snake_case)]\n");
    put(&mut out, "pub mod functions {\n");
    put(&mut out, "}\n");
    put(&mut out, "\n");
    assert(out@ =~= generated(schema@, layer)->Ok_0);
    put_bytes(f, out.as_slice());
    Ok(())
}

/// Schemas that are equal node by node have the same generated code, byte
/// by byte: the code depends on nothing but the schema and the layer.
pub proof fn lemma_generation_is_deterministic(a: TLSchema, b: TLSchema, layer: u32)
    requires
        a@ == b@,
    ensures
        generated(a@, layer) == generated(b@, layer),
{
}

} // verus!
