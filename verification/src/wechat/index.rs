//! The account index: an ordered list of account ids, kept as JSON.

use vstd::prelude::*;
use vstd::utf8::{decode_utf8, valid_utf8};

use crate::seqs::lemma_filter_next;
use crate::text::{opt_text, texts};

verus! {

/// The error of [`serde_json`].
#[verifier::external_type_specification]
#[verifier::external_body]
pub struct ExJsonError(serde_json::Error);

/// The list of strings that [`serde_json::from_str`] reads in a text, where it
/// reads one.
pub uninterp spec fn json_string_list(text: Seq<char>) -> Option<Seq<Seq<char>>>;

/// The bytes that [`serde_json::to_vec_pretty`] writes for a list of strings.
pub uninterp spec fn json_pretty_list(items: Seq<Seq<char>>) -> Seq<u8>;

/// Calls [`serde_json::from_str`] for a list of strings. Whether it succeeds,
/// and which strings it then reads, depends on the text alone; the grammar is
/// not stated, the outcome is only named.
#[verifier::external_body]
fn parse_string_list(raw: &str) -> (r: Result<Vec<String>, serde_json::Error>)
    ensures
        match r {
            Ok(list) => json_string_list(raw@) == Some(texts(list@)),
            Err(_) => json_string_list(raw@) is None,
        },
{
    serde_json::from_str::<Vec<String>>(raw)
}

/// Calls [`serde_json::to_vec_pretty`] for a list of strings. It does not fail:
/// strings and lists serialise without error, and so does writing to a vector.
/// The bytes depend on the strings alone and are only named here; they are
/// UTF-8, and [`serde_json::from_str`] reads the same strings in them.
#[verifier::external_body]
fn print_string_list(items: &Vec<String>) -> (r: Result<Vec<u8>, serde_json::Error>)
    ensures
        r is Ok,
        r->Ok_0@ == json_pretty_list(texts(items@)),
        valid_utf8(r->Ok_0@),
        json_string_list(decode_utf8(r->Ok_0@)) == Some(texts(items@)),
{
    serde_json::to_vec_pretty(items)
}

/// The ids that a text lists. One that is no list of strings lists none.
pub open spec fn index_ids(text: Option<Seq<char>>) -> Seq<Seq<char>> {
    match text {
        None => Seq::empty(),
        Some(t) => match json_string_list(t) {
            None => Seq::empty(),
            Some(ids) => ids,
        },
    }
}

/// The ids that a reader finds in the bytes of an index.
pub open spec fn index_ids_in(bytes: Seq<u8>) -> Seq<Seq<char>> {
    if valid_utf8(bytes) {
        index_ids(Some(decode_utf8(bytes)))
    } else {
        Seq::empty()
    }
}

/// The ids of a parsed index. An index that could not be parsed has none.
pub fn ids_or_none<E>(parsed: Result<Vec<String>, E>) -> (r: Vec<String>)
    ensures
        match parsed {
            Ok(ids) => r == ids,
            Err(_) => r@.len() == 0,
        },
{
    match parsed {
        Ok(ids) => ids,
        Err(_) => Vec::new(),
    }
}

/// The account ids in the text of the index. A missing or unreadable index
/// lists none.
pub fn list_account_ids(raw: Option<String>) -> (r: Vec<String>)
    ensures
        texts(r@) == index_ids(opt_text(raw)),
{
    match raw {
        None => {
            let r: Vec<String> = Vec::new();
            assert(texts(r@) =~= Seq::empty());
            r
        },
        Some(text) => {
            let r = ids_or_none(parse_string_list(text.as_str()));
            assert(r@.len() == 0 ==> texts(r@) =~= Seq::empty());
            r
        },
    }
}

/// The bytes of a printed index. One that could not be printed is empty.
pub fn bytes_or_none<E>(printed: Result<Vec<u8>, E>) -> (r: Vec<u8>)
    ensures
        match printed {
            Ok(bytes) => r == bytes,
            Err(_) => r@.len() == 0,
        },
{
    match printed {
        Ok(bytes) => bytes,
        Err(_) => Vec::new(),
    }
}

/// The bytes of an index with the given ids. Reading them gives the ids back.
pub fn print_account_ids(ids: &Vec<String>) -> (r: Vec<u8>)
    ensures
        r@ == json_pretty_list(texts(ids@)),
        valid_utf8(r@),
        index_ids(Some(decode_utf8(r@))) == texts(ids@),
        index_ids_in(r@) == texts(ids@),
{
    bytes_or_none(print_string_list(ids))
}

/// Holds of every id but one.
pub open spec fn other_than(id: Seq<char>) -> spec_fn(Seq<char>) -> bool {
    |other: Seq<char>| other != id
}

/// The list without an id.
pub open spec fn removed(ids: Seq<Seq<char>>, id: Seq<char>) -> Seq<Seq<char>> {
    ids.filter(other_than(id))
}

/// The list with an id at the end, and nowhere else.
pub open spec fn registered(ids: Seq<Seq<char>>, id: Seq<char>) -> Seq<Seq<char>> {
    removed(ids, id).push(id)
}

/// Takes an id out of the list.
pub fn unregister_account_id(ids: Vec<String>, account_id: &String) -> (r: Vec<String>)
    ensures
        texts(r@) == removed(texts(ids@), account_id@),
{
    let ghost all = texts(ids@);
    let ghost pred = other_than(account_id@);
    let mut kept: Vec<String> = Vec::new();
    proof {
        assert(texts(kept@) =~= all.take(0).filter(pred)) by {
            reveal(Seq::filter);
        }
    }
    for id in it: ids
        invariant
            texts(it.seq()) == all,
            pred == other_than(account_id@),
            texts(kept@) == all.take(it.index()).filter(pred),
    {
        proof {
            assert(all[it.index()] == id@);
            lemma_filter_next(all, it.index(), pred);
        }
        let ghost before = kept@;
        if id != *account_id {
            kept.push(id);
            assert(texts(kept@) =~= texts(before).push(id@));
        }
    }
    assert(all.take(all.len() as int) =~= all);
    kept
}

/// Puts an id at the end of the list, and takes it out wherever else it was.
pub fn register_account_id(ids: Vec<String>, account_id: String) -> (r: Vec<String>)
    ensures
        texts(r@) == registered(texts(ids@), account_id@),
{
    let mut out = unregister_account_id(ids, &account_id);
    let ghost before = out@;
    out.push(account_id);
    assert(texts(out@) =~= texts(before).push(account_id@));
    out
}

proof fn lemma_removed_contains(ids: Seq<Seq<char>>, id: Seq<char>)
    ensures
        !removed(ids, id).contains(id),
        forall|other: Seq<char>|
            other != id ==> (#[trigger] removed(ids, id).contains(other) <==> ids.contains(other)),
{
    let pred = other_than(id);
    if removed(ids, id).contains(id) {
        let k = removed(ids, id).index_of(id);
        ids.lemma_filter_pred(pred, k);
    }
    assert forall|other: Seq<char>| other != id implies (#[trigger] removed(ids, id).contains(other)
        <==> ids.contains(other)) by {
        if removed(ids, id).contains(other) {
            ids.lemma_filter_contains_rev(pred, other);
        }
        if ids.contains(other) {
            let k = ids.index_of(other);
            ids.lemma_filter_contains(pred, k);
        }
    }
}

proof fn lemma_removed_of_absent(ids: Seq<Seq<char>>, id: Seq<char>)
    requires
        !ids.contains(id),
    ensures
        removed(ids, id) == ids,
    decreases ids.len(),
{
    reveal(Seq::filter);
    if ids.len() > 0 {
        let rest = ids.drop_last();
        assert(ids.contains(ids.last())) by {
            assert(ids[ids.len() - 1] == ids.last());
        }
        assert(!rest.contains(id)) by {
            if rest.contains(id) {
                let k = rest.index_of(id);
                assert(ids[k] == id);
            }
        }
        lemma_removed_of_absent(rest, id);
        assert(ids =~= rest.push(ids.last()));
    }
}

/// The length of the list tells whether an id was taken out.
pub proof fn lemma_removed_len(ids: Seq<Seq<char>>, id: Seq<char>)
    ensures
        removed(ids, id).len() <= ids.len(),
        removed(ids, id).len() != ids.len() <==> ids.contains(id),
    decreases ids.len(),
{
    reveal(Seq::filter);
    if ids.len() > 0 {
        let rest = ids.drop_last();
        lemma_removed_len(rest, id);
        assert(ids =~= rest.push(ids.last()));
        assert(ids.contains(id) <==> rest.contains(id) || ids.last() == id) by {
            if rest.contains(id) {
                assert(ids[rest.index_of(id)] == id);
            }
            if ids.contains(id) && ids.last() != id {
                assert(rest[ids.index_of(id)] == id);
            }
            if ids.last() == id {
                assert(ids[ids.len() - 1] == id);
            }
        }
    }
}

/// Taking an id out leaves every other id, and not that one; taking it out
/// again changes nothing, and neither does taking out an id that is not listed.
pub proof fn law_removed(ids: Seq<Seq<char>>, id: Seq<char>)
    ensures
        !removed(ids, id).contains(id),
        forall|other: Seq<char>|
            other != id ==> (#[trigger] removed(ids, id).contains(other) <==> ids.contains(other)),
        removed(removed(ids, id), id) == removed(ids, id),
        !ids.contains(id) ==> removed(ids, id) == ids,
{
    lemma_removed_contains(ids, id);
    lemma_removed_of_absent(removed(ids, id), id);
    if !ids.contains(id) {
        lemma_removed_of_absent(ids, id);
    }
}

/// A registered id is listed once, at the end; every other id stays, in its
/// place among the others. Registering it again changes nothing, and taking it
/// out undoes the registration.
pub proof fn law_registered(ids: Seq<Seq<char>>, id: Seq<char>)
    ensures
        registered(ids, id).last() == id,
        !registered(ids, id).drop_last().contains(id),
        registered(ids, id).drop_last() == removed(ids, id),
        registered(registered(ids, id), id) == registered(ids, id),
        removed(registered(ids, id), id) == removed(ids, id),
{
    lemma_removed_contains(ids, id);
    let less = removed(ids, id);
    assert(registered(ids, id).drop_last() =~= less);
    lemma_removed_of_absent(less, id);
    assert(removed(less.push(id), id) == removed(less, id)) by {
        reveal(Seq::filter);
        assert(less.push(id).drop_last() =~= less);
    }
}

/// A list without repetitions stays one.
pub proof fn law_index_has_no_repetitions(ids: Seq<Seq<char>>, id: Seq<char>)
    requires
        ids.no_duplicates(),
    ensures
        removed(ids, id).no_duplicates(),
        registered(ids, id).no_duplicates(),
    decreases ids.len(),
{
    reveal(Seq::filter);
    if ids.len() > 0 {
        let rest = ids.drop_last();
        assert(rest.no_duplicates());
        law_index_has_no_repetitions(rest, id);
        lemma_removed_contains(rest, id);
        assert(!rest.contains(ids.last())) by {
            if rest.contains(ids.last()) {
                let k = rest.index_of(ids.last());
                assert(ids[k] == ids[ids.len() - 1]);
            }
        }
    }
    lemma_removed_contains(ids, id);
    let less = removed(ids, id);
    assert(less.no_duplicates()) by {
        assert forall|i: int, j: int|
            0 <= i < less.len() && 0 <= j < less.len() && i != j implies less[i] != less[j] by {
            if ids.len() > 0 {
                let rest = removed(ids.drop_last(), id);
                if i < rest.len() {
                    assert(rest.contains(rest[i]));
                }
                if j < rest.len() {
                    assert(rest.contains(rest[j]));
                }
            }
        }
    }
    assert(registered(ids, id).no_duplicates()) by {
        assert forall|i: int, j: int|
            0 <= i < less.len() + 1 && 0 <= j < less.len() + 1 && i != j implies less.push(id)[i]
            != less.push(id)[j] by {
            if i < less.len() {
                assert(less.contains(less[i]));
            }
            if j < less.len() {
                assert(less.contains(less[j]));
            }
        }
    }
}

} // verus!
