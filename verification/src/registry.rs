//! The orphan registry detector: flags uninstall registration records that
//! have no verifiable install location and no corroborating metadata.
//!
//! The registration store itself is a platform capability. A caller on a
//! supporting platform enumerates the records and observes whether each
//! install location exists; this module holds the verified classification.

use vstd::prelude::*;
use crate::text::is_blank;
use crate::text::spec_is_blank;

verus! {

/// One uninstall registration record, with what was observed about it.
pub struct RegRecord {
    /// The registration's full subkey path, relative to its hive.
    pub subkey: String,
    /// The record's install-location field, when present.
    pub install_location: Option<String>,
    /// Whether the install location names an existing path, as observed on
    /// disk; meaningful only when the field is present and not blank.
    pub install_location_exists: bool,
    /// The record's display-name field, when present.
    pub display_name: Option<String>,
    /// The record's uninstall-command field, when present.
    pub uninstall_string: Option<String>,
}

/// Whether a record's install location is missing for cleanup purposes:
/// absent, blank, or naming a path that does not exist.
pub open spec fn spec_install_missing(r: RegRecord) -> bool {
    match r.install_location {
        None => true,
        Some(s) => spec_is_blank(s@) || !r.install_location_exists,
    }
}

/// Whether an optional corroborating field is missing or blank.
pub open spec fn spec_field_missing(f: Option<String>) -> bool {
    match f {
        None => true,
        Some(s) => spec_is_blank(s@),
    }
}

/// The orphan signal: no verifiable install location, and no display name or
/// no uninstall command to corroborate the record. A record with both a
/// display name and an uninstall command is left alone even when its install
/// location is stale.
pub open spec fn spec_is_orphan(r: RegRecord) -> bool {
    spec_install_missing(r) && (spec_field_missing(r.display_name) || spec_field_missing(
        r.uninstall_string,
    ))
}

/// The subkeys of all orphan records, in enumeration order.
pub open spec fn spec_orphans(records: Seq<RegRecord>) -> Seq<String>
    decreases records.len(),
{
    if records.len() == 0 {
        Seq::empty()
    } else {
        let prev = spec_orphans(records.drop_last());
        if spec_is_orphan(records.last()) {
            prev.push(records.last().subkey)
        } else {
            prev
        }
    }
}

/// Classifies one record.
pub fn is_orphan(r: &RegRecord) -> (b: bool)
    ensures
        b == spec_is_orphan(*r),
{
    let install_missing = match &r.install_location {
        None => true,
        Some(s) => is_blank(s.as_str()) || !r.install_location_exists,
    };
    if !install_missing {
        return false;
    }
    let display_missing = match &r.display_name {
        None => true,
        Some(s) => is_blank(s.as_str()),
    };
    if display_missing {
        return true;
    }
    match &r.uninstall_string {
        None => true,
        Some(s) => is_blank(s.as_str()),
    }
}

/// Flags every orphan registration: a record whose install location is
/// missing, blank or nonexistent, and which lacks a display name or an
/// uninstall command.
pub fn registry_orphans(records: &Vec<RegRecord>) -> (r: Vec<String>)
    ensures
        r@ == spec_orphans(records@),
{
    let mut out: Vec<String> = Vec::new();
    let mut i: usize = 0;
    proof {
        assert(records@.subrange(0, 0) =~= Seq::<RegRecord>::empty());
    }
    while i < records.len()
        invariant
            i <= records@.len(),
            out@ == spec_orphans(records@.subrange(0, i as int)),
        decreases records@.len() - i,
    {
        let ghost prefix = records@.subrange(0, i as int);
        let ghost next = records@.subrange(0, i + 1 as int);
        proof {
            assert(next.drop_last() =~= prefix);
            assert(next.last() == records@[i as int]);
        }
        if is_orphan(&records[i]) {
            out.push(records[i].subkey.clone());
        }
        i = i + 1;
    }
    proof {
        assert(records@.subrange(0, records@.len() as int) =~= records@);
    }
    out
}

/// The install locations every current registration claims: each present,
/// non-blank install-location value, in enumeration order.
pub open spec fn spec_installed_paths(records: Seq<RegRecord>) -> Seq<String>
    decreases records.len(),
{
    if records.len() == 0 {
        Seq::empty()
    } else {
        let prev = spec_installed_paths(records.drop_last());
        match records.last().install_location {
            Some(loc) => if !spec_is_blank(loc@) {
                prev.push(loc)
            } else {
                prev
            },
            None => prev,
        }
    }
}

/// Collects the install locations of all current registrations.
pub fn installed_paths(records: &Vec<RegRecord>) -> (r: Vec<String>)
    ensures
        r@ == spec_installed_paths(records@),
{
    let mut out: Vec<String> = Vec::new();
    let mut i: usize = 0;
    proof {
        assert(records@.subrange(0, 0) =~= Seq::<RegRecord>::empty());
    }
    while i < records.len()
        invariant
            i <= records@.len(),
            out@ == spec_installed_paths(records@.subrange(0, i as int)),
        decreases records@.len() - i,
    {
        let ghost prefix = records@.subrange(0, i as int);
        let ghost next = records@.subrange(0, i + 1 as int);
        proof {
            assert(next.drop_last() =~= prefix);
            assert(next.last() == records@[i as int]);
        }
        match &records[i].install_location {
            Some(loc) => {
                if !is_blank(loc.as_str()) {
                    out.push(loc.clone());
                }
            },
            None => {},
        }
        i = i + 1;
    }
    proof {
        assert(records@.subrange(0, records@.len() as int) =~= records@);
    }
    out
}

/// Removes one registration subtree. This build supports no registration
/// store, so the request is always refused; a caller on a supporting
/// platform performs the removal itself and reports the outcome.
pub fn delete_registry_key(subkey: &str) -> (r: Result<(), String>)
    ensures
        r matches Err(m) && m@ == "Not supported"@,
{
    Err("Not supported".to_owned())
}

} // verus!
