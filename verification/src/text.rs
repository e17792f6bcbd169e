use vstd::prelude::*;
use vstd::utf8::{encode_utf8, encode_utf8_decode_utf8};

verus! {

/// Lexicographic order on byte strings (a proper prefix comes first).
pub open spec fn bytes_lt(a: Seq<u8>, b: Seq<u8>) -> bool
    decreases a.len(),
{
    if a.len() == 0 {
        b.len() > 0
    } else if b.len() == 0 {
        false
    } else if a[0] != b[0] {
        a[0] < b[0]
    } else {
        bytes_lt(a.drop_first(), b.drop_first())
    }
}

/// The order of `String`s: byte-wise lexicographic on their UTF-8 encoding.
pub open spec fn text_lt(a: Seq<char>, b: Seq<char>) -> bool {
    bytes_lt(encode_utf8(a), encode_utf8(b))
}

/// The character views of a sequence of strings.
pub open spec fn texts(v: Seq<String>) -> Seq<Seq<char>> {
    v.map_values(|s: String| s@)
}

/// Strictly increasing under `text_lt` (so also free of duplicates).
pub open spec fn strictly_sorted(s: Seq<Seq<char>>) -> bool {
    forall|i: int, j: int| 0 <= i < j < s.len() ==> text_lt(s[i], s[j])
}

pub proof fn lemma_bytes_lt_irreflexive(a: Seq<u8>)
    ensures
        !bytes_lt(a, a),
    decreases a.len(),
{
    if a.len() > 0 {
        lemma_bytes_lt_irreflexive(a.drop_first());
    }
}

pub proof fn lemma_bytes_lt_transitive(a: Seq<u8>, b: Seq<u8>, c: Seq<u8>)
    requires
        bytes_lt(a, b),
        bytes_lt(b, c),
    ensures
        bytes_lt(a, c),
    decreases a.len(),
{
    if a.len() > 0 && b.len() > 0 && c.len() > 0 && a[0] == b[0] && b[0] == c[0] {
        lemma_bytes_lt_transitive(a.drop_first(), b.drop_first(), c.drop_first());
    }
}

pub proof fn lemma_bytes_lt_total(a: Seq<u8>, b: Seq<u8>)
    requires
        a != b,
    ensures
        bytes_lt(a, b) || bytes_lt(b, a),
    decreases a.len(),
{
    if a.len() > 0 && b.len() > 0 && a[0] == b[0] {
        if a.drop_first() == b.drop_first() {
            assert(a =~= seq![a[0]] + a.drop_first());
            assert(b =~= seq![b[0]] + b.drop_first());
        }
        lemma_bytes_lt_total(a.drop_first(), b.drop_first());
    } else if a.len() == 0 && b.len() == 0 {
        assert(a =~= b);
    }
}

pub proof fn lemma_bytes_lt_asymmetric(a: Seq<u8>, b: Seq<u8>)
    requires
        bytes_lt(a, b),
    ensures
        !bytes_lt(b, a),
{
    if bytes_lt(b, a) {
        lemma_bytes_lt_transitive(a, b, a);
        lemma_bytes_lt_irreflexive(a);
    }
}

pub proof fn lemma_text_lt_irreflexive(a: Seq<char>)
    ensures
        !text_lt(a, a),
{
    lemma_bytes_lt_irreflexive(encode_utf8(a));
}

pub proof fn lemma_text_lt_transitive(a: Seq<char>, b: Seq<char>, c: Seq<char>)
    requires
        text_lt(a, b),
        text_lt(b, c),
    ensures
        text_lt(a, c),
{
    lemma_bytes_lt_transitive(encode_utf8(a), encode_utf8(b), encode_utf8(c));
}

pub proof fn lemma_text_lt_asymmetric(a: Seq<char>, b: Seq<char>)
    requires
        text_lt(a, b),
    ensures
        !text_lt(b, a),
{
    lemma_bytes_lt_asymmetric(encode_utf8(a), encode_utf8(b));
}

/// Equal encodings come from equal strings.
pub proof fn lemma_encode_injective(a: Seq<char>, b: Seq<char>)
    requires
        encode_utf8(a) == encode_utf8(b),
    ensures
        a == b,
{
    encode_utf8_decode_utf8(a);
    encode_utf8_decode_utf8(b);
}

pub proof fn lemma_text_lt_total(a: Seq<char>, b: Seq<char>)
    requires
        a != b,
    ensures
        text_lt(a, b) || text_lt(b, a),
{
    if encode_utf8(a) == encode_utf8(b) {
        lemma_encode_injective(a, b);
    }
    lemma_bytes_lt_total(encode_utf8(a), encode_utf8(b));
}

/// The result of comparing two strings.
pub enum TextOrder {
    Less,
    Equal,
    Greater,
}

/// Compares two strings in the order of `String` (byte-wise on UTF-8).
pub fn compare_text(a: &str, b: &str) -> (o: TextOrder)
    ensures
        o is Less <==> text_lt(a@, b@),
        o is Equal <==> a@ == b@,
        o is Greater <==> text_lt(b@, a@),
{
    let ab = a.as_bytes();
    let bb = b.as_bytes();
    let ghost ea = encode_utf8(a@);
    let ghost eb = encode_utf8(b@);
    proof {
        lemma_text_lt_irreflexive(a@);
        if a@ != b@ {
            lemma_text_lt_total(a@, b@);
            if text_lt(a@, b@) {
                lemma_text_lt_asymmetric(a@, b@);
            } else {
                lemma_text_lt_asymmetric(b@, a@);
            }
        }
        if ea == eb {
            lemma_encode_injective(a@, b@);
        }
        assert(ea.skip(0) =~= ea);
        assert(eb.skip(0) =~= eb);
    }
    let na = ab.len();
    let nb = bb.len();
    let mut i: usize = 0;
    while i < na && i < nb
        invariant
            ab@ == ea,
            bb@ == eb,
            na == ea.len(),
            nb == eb.len(),
            i <= na,
            i <= nb,
            ea.take(i as int) =~= eb.take(i as int),
            ea == eb <==> a@ == b@,
            !bytes_lt(ea, ea),
            bytes_lt(ea, eb) ==> !bytes_lt(eb, ea),
            bytes_lt(eb, ea) ==> !bytes_lt(ea, eb),
            text_lt(a@, b@) == bytes_lt(ea, eb),
            text_lt(b@, a@) == bytes_lt(eb, ea),
            bytes_lt(ea, eb) == bytes_lt(ea.skip(i as int), eb.skip(i as int)),
            bytes_lt(eb, ea) == bytes_lt(eb.skip(i as int), ea.skip(i as int)),
        decreases na - i,
    {
        assert(ea.skip(i as int)[0] == ea[i as int]);
        assert(eb.skip(i as int)[0] == eb[i as int]);
        if ab[i] < bb[i] {
            return TextOrder::Less;
        }
        if ab[i] > bb[i] {
            return TextOrder::Greater;
        }
        assert(ea.skip(i as int).drop_first() =~= ea.skip(i + 1));
        assert(eb.skip(i as int).drop_first() =~= eb.skip(i + 1));
        assert(ea.take(i + 1) =~= ea.take(i as int).push(ea[i as int]));
        assert(eb.take(i + 1) =~= eb.take(i as int).push(eb[i as int]));
        i = i + 1;
    }
    if na < nb {
        TextOrder::Less
    } else if nb < na {
        TextOrder::Greater
    } else {
        assert(ea =~= ea.take(i as int));
        assert(eb =~= eb.take(i as int));
        TextOrder::Equal
    }
}

/// Whether two strings are equal.
pub fn same_text(a: &str, b: &str) -> (eq: bool)
    ensures
        eq == (a@ == b@),
{
    match compare_text(a, b) {
        TextOrder::Equal => true,
        _ => false,
    }
}

/// Whether `items` holds `s`.
pub fn contains_text(items: &Vec<String>, s: &str) -> (found: bool)
    ensures
        found == texts(items@).contains(s@),
{
    let n = items.len();
    let mut i: usize = 0;
    while i < n
        invariant
            n == items@.len(),
            i <= n,
            forall|j: int| 0 <= j < i ==> items@[j]@ != s@,
        decreases n - i,
    {
        if same_text(items[i].as_str(), s) {
            assert(texts(items@)[i as int] == s@);
            return true;
        }
        i = i + 1;
    }
    assert forall|j: int| 0 <= j < texts(items@).len() implies texts(items@)[j] != s@ by {
        assert(texts(items@)[j] == items@[j]@);
    }
    false
}

/// Adds `item` to a strictly sorted list of strings, keeping it strictly
/// sorted (a set in the order of `BTreeSet<String>`).
pub fn insert_sorted(set: &mut Vec<String>, item: String)
    requires
        strictly_sorted(texts(old(set)@)),
    ensures
        strictly_sorted(texts(final(set)@)),
        texts(final(set)@).to_set() == texts(old(set)@).to_set().insert(item@),
{
    let ghost before = texts(set@);
    let n = set.len();
    let mut i: usize = 0;
    while i < n
        invariant
            n == set@.len(),
            i <= n,
            before == texts(set@),
            strictly_sorted(before),
            forall|j: int| 0 <= j < i ==> text_lt(before[j], item@),
        ensures
            i <= n,
            before == texts(set@),
            forall|j: int| 0 <= j < i ==> text_lt(before[j], item@),
            i < n ==> text_lt(item@, before[i as int]),
        decreases n - i,
    {
        match compare_text(set[i].as_str(), item.as_str()) {
            TextOrder::Less => {},
            TextOrder::Equal => {
                assert(before.to_set().insert(item@) =~= before.to_set()) by {
                    assert(before[i as int] == item@);
                }
                return;
            },
            TextOrder::Greater => {
                break;
            },
        }
        i = i + 1;
    }
    proof {
        assert forall|j: int| i <= j < n implies text_lt(item@, before[j]) by {
            if j > i {
                lemma_text_lt_transitive(item@, before[i as int], before[j]);
            }
        }
    }
    set.insert(i, item);
    let ghost after = texts(set@);
    assert(after =~= before.insert(i as int, item@));
    proof {
        assert forall|a: int, b: int| 0 <= a < b < after.len() implies text_lt(after[a], after[b]) by {
            if b < i {
            } else if a < i && b == i {
            } else if a < i {
                lemma_text_lt_transitive(after[a], item@, after[b]);
            } else if a == i {
            } else {
            }
        }
        assert(after.to_set() =~= before.to_set().insert(item@)) by {
            assert forall|x: Seq<char>| after.to_set().contains(x) implies before.to_set().insert(item@).contains(x) by {
                let k = choose|k: int| 0 <= k < after.len() && after[k] == x;
                if k < i {
                    assert(before[k] == x);
                } else if k > i {
                    assert(before[k - 1] == x);
                }
            }
            assert forall|x: Seq<char>| before.to_set().insert(item@).contains(x) implies after.to_set().contains(x) by {
                if x == item@ {
                    assert(after[i as int] == x);
                } else {
                    let k = choose|k: int| 0 <= k < before.len() && before[k] == x;
                    if k < i {
                        assert(after[k] == x);
                    } else {
                        assert(after[k + 1] == x);
                    }
                }
            }
        }
    }
}

} // verus!
