//! Lists of JSON-LD context URIs, in which the context of the API itself
//! has to come last.
use vstd::prelude::*;
use vstd::string::StringExecFns;

verus! {

/// The texts held by a sequence of strings.
pub open spec fn uris(list: Seq<String>) -> Seq<Seq<char>> {
    Seq::new(list.len(), |i: int| list[i]@)
}

/// Whether `k` is the first position of `list` that holds `item`.
pub open spec fn is_first(list: Seq<Seq<char>>, item: Seq<char>, k: int) -> bool {
    &&& 0 <= k < list.len()
    &&& list[k] == item
    &&& forall|j: int| 0 <= j < k ==> list[j] != item
}

/// The list with its first occurrence of `item` moved to the end; with
/// `item` added at the end where it does not occur.
pub open spec fn ending_with(list: Seq<Seq<char>>, item: Seq<char>) -> Seq<Seq<char>> {
    if exists|k: int| is_first(list, item, k) {
        let k = choose|k: int| is_first(list, item, k);
        (list.take(k) + list.skip(k + 1)).push(item)
    } else {
        list.push(item)
    }
}

/// Moves the first occurrence of `item` to the end of the list, or adds it
/// there.
pub fn list_ending_with(list: &[String], item: &str) -> (out: Vec<String>)
    ensures
        uris(out@) == ending_with(uris(list@), item@),
{
    let ghost texts = uris(list@);
    let mut out: Vec<String> = Vec::new();
    let mut found: bool = false;
    let mut i: usize = 0;
    let wanted = String::from_str(item);
    let ghost mut at: int = 0;
    while i < list.len()
        invariant
            i <= list.len(),
            texts == uris(list@),
            wanted@ == item@,
            !found ==> uris(out@) == texts.take(i as int) && forall|j: int|
                0 <= j < i ==> texts[j] != item@,
            found ==> is_first(texts, item@, at) && at < i && uris(out@) == texts.take(at)
                + texts.subrange(at + 1, i as int),
        decreases list.len() - i,
    {
        let same = !found && list[i] == wanted;
        assert(texts[i as int] == list@[i as int]@);
        if same {
            found = true;
            proof {
                at = i as int;
                assert(texts.subrange(at + 1, i + 1) == Seq::<Seq<char>>::empty());
                assert(texts.take(at) + Seq::<Seq<char>>::empty() == texts.take(at));
            }
        } else {
            let copy = list[i].clone();
            proof {
                let next = out@.push(copy);
                assert(copy@ == texts[i as int]);
                assert(uris(next) == uris(out@).push(copy@));
                if found {
                    assert(texts.subrange(at + 1, i as int).push(texts[i as int])
                        == texts.subrange(at + 1, i + 1));
                    assert((texts.take(at) + texts.subrange(at + 1, i as int)).push(
                        texts[i as int],
                    ) == texts.take(at) + texts.subrange(at + 1, i + 1));
                } else {
                    assert(texts.take(i as int).push(texts[i as int]) == texts.take(i + 1));
                }
            }
            out.push(copy);
        }
        i += 1;
    }
    proof {
        let before = out@;
        let after = before.push(wanted);
        assert(uris(after) == uris(before).push(item@));
        if found {
            let k = choose|k: int| is_first(texts, item@, k);
            assert(k == at) by {
                if k < at {
                    assert(texts[k] != item@);
                }
                if at < k {
                    assert(texts[at] != item@);
                }
            }
            assert(texts.subrange(at + 1, texts.len() as int) == texts.skip(at + 1));
        } else {
            assert(texts.take(texts.len() as int) == texts);
            assert forall|k: int| !is_first(texts, item@, k) by {
                if 0 <= k < texts.len() {
                    assert(texts[k] != item@);
                }
            }
        }
    }
    out.push(wanted);
    out
}

} // verus!
