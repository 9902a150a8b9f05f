//! Decisions the storage helpers make between their reads.

use vstd::prelude::*;

use crate::base::text::{has_prefix, lemma_seq_lt_irreflexive, seq_lt};
use crate::memstore::{lemma_listing_range_is_prefix, listed, listing, right_bound};
use crate::storage::path_config::{lemma_log_entry_path_order, log_entry_path, log_prefix_path};

verus! {

/// The string that `serde_json` decodes from `bytes` as a JSON string, or
/// `None` where the bytes are not a JSON string.
pub uninterp spec fn json_string_of(bytes: Seq<u8>) -> Option<Seq<char>>;

/// The error `serde_json` reports for bytes it cannot decode.
#[verifier::external_type_specification]
#[verifier::external_body]
pub struct ExJsonError(serde_json::Error);

/// `serde_json::from_slice` into a `String`: the decoded string, or the
/// decoding error; which one is a function of the bytes alone.
#[verifier::external_body]
fn decode_json_string(bytes: &[u8]) -> (r: Result<String, serde_json::Error>)
    ensures
        match r {
            Ok(s) => json_string_of(bytes@) == Some(s@),
            Err(_) => json_string_of(bytes@) is None,
        },
{
    serde_json::from_slice::<String>(bytes)
}

/// The text of a `serde_json` error, as its `Display` gives it.
#[verifier::external_body]
fn json_error_text(e: &serde_json::Error) -> (r: String) {
    e.to_string()
}

/// The last log path recorded under the last log path's record, from what
/// was read there: empty where nothing was recorded; the decoding error's
/// text where the record is not a JSON string.
pub fn recorded_last_path(data: Option<Vec<u8>>) -> (r: Result<String, String>)
    ensures
        match data {
            None => r matches Ok(s) && s@ == Seq::<char>::empty(),
            Some(d) => match json_string_of(d@) {
                Some(x) => r matches Ok(s) && s@ == x,
                None => r is Err,
            },
        },
{
    match data {
        None => Ok(String::new()),
        Some(d) => match decode_json_string(d.as_slice()) {
            Ok(s) => Ok(s),
            Err(e) => Err(json_error_text(&e)),
        },
    }
}

/// The name of the entry that holds the last log: the last name listed after
/// the recorded last name, else the recorded one; none where that is empty.
pub open spec fn last_entry_choice(recorded: Seq<char>, listed: Seq<Seq<char>>) -> Option<
    Seq<char>,
> {
    let last = if listed.len() > 0 {
        listed.last()
    } else {
        recorded
    };
    if last.len() == 0 {
        None
    } else {
        Some(last)
    }
}

/// Picks the name of the entry that holds the last log, from the recorded last
/// name and the names listed after it in ascending order.
pub fn last_log_entry_path(recorded: String, listed: Vec<String>) -> (r: Option<String>)
    ensures
        match r {
            Some(s) => last_entry_choice(recorded@, listed@.map_values(|x: String| x@)) == Some(
                s@,
            ),
            None => last_entry_choice(recorded@, listed@.map_values(|x: String| x@)) is None,
        },
{
    let n = listed.len();
    let last = if n > 0 {
        listed[n - 1].clone()
    } else {
        recorded
    };
    proof {
        let m = listed@.map_values(|x: String| x@);
        if n > 0 {
            assert(m.last() == listed@[n - 1]@);
        }
    }
    if last.as_str().unicode_len() == 0 {
        None
    } else {
        Some(last)
    }
}

/// The last log entry found in a store whose names under the log directory
/// are the entries at `indexes`, with no last log path recorded: the
/// recorded path is then empty, the listing of the log directory after it
/// names every entry, and the entry chosen is the one with the greatest
/// index; with no entry, none is chosen.
pub proof fn lemma_last_entry_is_greatest(
    m: Map<Seq<char>, Seq<u8>>,
    indexes: Set<u64>,
    names: Seq<String>,
)
    requires
        forall|k: Seq<char>|
            m.contains_key(k) && has_prefix(k, log_prefix_path()) <==> exists|i: u64|
                #[trigger] indexes.contains(i) && k == log_entry_path(i),
        listing(m, log_prefix_path(), Seq::empty(), names),
    ensures
        (forall|i: u64| !indexes.contains(i)) ==> last_entry_choice(
            Seq::empty(),
            names.map_values(|x: String| x@),
        ) is None,
        (exists|i: u64| indexes.contains(i)) ==> exists|g: u64|
            #![trigger indexes.contains(g)]
            {
                &&& indexes.contains(g)
                &&& forall|j: u64| #[trigger] indexes.contains(j) ==> j <= g
                &&& last_entry_choice(Seq::empty(), names.map_values(|x: String| x@)) == Some(
                    log_entry_path(g),
                )
            },
{
    let p = log_prefix_path();
    let e = Seq::<char>::empty();
    let ns = names.map_values(|x: String| x@);
    reveal_strlit("/log/");
    assert(p.last() == '/');
    assert(p.drop_last().push('0') == p.drop_last().push(('/' as u32 + 1) as char));
    assert(right_bound(p) is Some);
    // Every listed name is the name of an entry.
    assert forall|a: int| #![trigger names[a]] 0 <= a < names.len() implies exists|i: u64|
        #[trigger] indexes.contains(i) && names[a]@ == log_entry_path(i) by {
        lemma_listing_range_is_prefix(names[a]@, p);
    }
    if forall|i: u64| !indexes.contains(i) {
        if names.len() > 0 {
            let i = choose|i: u64| #[trigger] indexes.contains(i) && names[0]@ == log_entry_path(i);
            assert(false);
        }
        assert(ns.len() == 0);
        assert(e.len() == 0);
    } else {
        let i0 = choose|i: u64| indexes.contains(i);
        let k0 = log_entry_path(i0);
        lemma_log_entry_path_order(i0, i0);
        lemma_listing_range_is_prefix(k0, p);
        assert(seq_lt(e, k0)) by {
            assert(k0.len() > 0) by {
                assert(k0 =~= p + (log_entry_path(i0).subrange(p.len() as int, k0.len() as int)));
            }
        }
        assert(listed(k0, p, e));
        assert(m.contains_key(k0));
        let a0 = choose|a: int| 0 <= a < names.len() && (#[trigger] names[a])@ == k0;
        let last = names.len() - 1;
        let g = choose|i: u64| #[trigger] indexes.contains(i) && names[last]@ == log_entry_path(i);
        assert forall|j: u64| #[trigger] indexes.contains(j) implies j <= g by {
            let kj = log_entry_path(j);
            lemma_log_entry_path_order(j, g);
            lemma_log_entry_path_order(g, j);
            lemma_listing_range_is_prefix(kj, p);
            assert(kj.len() > 0) by {
                assert(kj =~= p + kj.subrange(p.len() as int, kj.len() as int));
            }
            assert(listed(kj, p, e));
            let aj = choose|a: int| 0 <= a < names.len() && (#[trigger] names[a])@ == kj;
            if aj < last {
                assert(seq_lt(names[aj]@, names[last]@));
            } else {
                lemma_seq_lt_irreflexive(kj);
            }
        }
        assert(ns.last() == names[last]@);
        assert(names[last]@.len() > 0) by {
            let kg = log_entry_path(g);
            assert(kg =~= p + kg.subrange(p.len() as int, kg.len() as int));
        }
    }
}

} // verus!
