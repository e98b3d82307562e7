//! The database schema's versions: a database records the last migration it
//! ran, and opening it runs the later ones in order.

use vstd::prelude::*;

verus! {

/// The version of the newest schema.
pub const SCHEMA_VERSION: u32 = 6;

/// The migrations a database at `version` still needs: every later one up
/// to the newest, in order.
pub open spec fn pending_spec(version: u32) -> Seq<u32> {
    if version >= SCHEMA_VERSION {
        Seq::empty()
    } else {
        Seq::new((SCHEMA_VERSION - version) as nat, |i: int| (version + 1 + i) as u32)
    }
}

/// The migrations to run (see `pending_spec`).
pub fn pending_migrations(version: u32) -> (r: Vec<u32>)
    ensures
        r@ == pending_spec(version),
{
    let mut out: Vec<u32> = Vec::new();
    let mut v: u32 = version;
    while v < SCHEMA_VERSION
        invariant
            version <= v <= SCHEMA_VERSION || (version >= SCHEMA_VERSION && v == version),
            version < SCHEMA_VERSION ==> out@ == Seq::new((v - version) as nat, |i: int| (version + 1 + i) as u32),
            version >= SCHEMA_VERSION ==> out@.len() == 0,
        decreases SCHEMA_VERSION - v,
    {
        v = v + 1;
        out.push(v);
        assert(out@ =~= Seq::new((v - version) as nat, |i: int| (version + 1 + i) as u32));
    }
    if version >= SCHEMA_VERSION {
        assert(out@ =~= Seq::<u32>::empty());
    } else {
        assert(out@ =~= pending_spec(version));
    }
    out
}

/// Migrating is idempotent: after running the pending migrations a database
/// is at the newest version and needs none.
pub proof fn lemma_migrations_idempotent(version: u32)
    ensures
        pending_spec(SCHEMA_VERSION).len() == 0,
        version < SCHEMA_VERSION ==> pending_spec(version).last() == SCHEMA_VERSION,
{
}

} // verus!
