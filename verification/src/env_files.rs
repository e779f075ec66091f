//! Which files of a directory are env files, and the order in which they
//! are listed and uploaded.
use vstd::prelude::*;
use crate::text::{
    chars_lt, lemma_chars_lt_asymmetric, lemma_chars_lt_irreflexive, lemma_chars_lt_transitive,
    starts_with, str_eq, str_lt,
};

verus! {

/// The env file names: `.env`, and every `.env.<suffix>` but
/// `.env.example`.
pub open spec fn is_env_name(name: Seq<char>) -> bool {
    name == ".env"@ || (".env."@.is_prefix_of(name) && name != ".env.example"@)
}

/// A name is an env file exactly when it is `.env`, or starts with the
/// five characters `.env.` and is not `.env.example`, whatever follows the
/// prefix (dots included).
pub proof fn lemma_env_names(name: Seq<char>)
    ensures
        is_env_name(name) <==> (name == ".env"@ || (name.len() >= 5 && name.take(5) == ".env."@
            && name != ".env.example"@)),
        name == ".env"@ ==> is_env_name(name),
        name.len() >= 5 && name.take(5) == ".env."@ && name != ".env.example"@ ==> is_env_name(name),
        !is_env_name(".env.example"@),
{
    reveal_strlit(".env.");
    reveal_strlit(".env");
    reveal_strlit(".env.example");
    assert(".env.example"@.len() == 12);
    assert(".env"@.len() == 4);
    assert(".env.example"@ != ".env"@);
    if name.len() >= 5 && name.take(5) == ".env."@ {
        assert(".env."@ =~= name.subrange(0, 5));
    }
    if ".env."@.is_prefix_of(name) {
        assert(name.take(5) =~= name.subrange(0, 5));
    }
}

/// Whether the file named `name` is an env file: `.env`, or a name that
/// starts with `.env.` other than `.env.example`.
pub fn is_env_file(name: &str) -> (r: bool)
    ensures
        r == is_env_name(name@),
{
    str_eq(name, ".env") || (starts_with(name, ".env.") && !str_eq(name, ".env.example"))
}

/// An env file read from the current directory: its name, its path as
/// shown, and its contents.
pub struct SyncFile {
    pub name: String,
    pub path: String,
    pub payload: String,
}

/// Files in ascending order of their names.
pub open spec fn sorted_by_name(files: Seq<SyncFile>) -> bool {
    forall|i: int, j: int|
        0 <= i < j < files.len() ==> !chars_lt(#[trigger] files[j].name@, #[trigger] files[i].name@)
}

/// The files of `files` named `n`, in their order.
pub open spec fn with_name(files: Seq<SyncFile>, n: Seq<char>) -> Seq<SyncFile>
    decreases files.len(),
{
    if files.len() == 0 {
        Seq::empty()
    } else {
        (if files[0].name@ == n {
            seq![files[0]]
        } else {
            Seq::empty()
        }) + with_name(files.drop_first(), n)
    }
}

/// Selecting by name distributes over concatenation.
pub proof fn lemma_with_name_add(a: Seq<SyncFile>, b: Seq<SyncFile>, n: Seq<char>)
    ensures
        with_name(a + b, n) == with_name(a, n) + with_name(b, n),
    decreases a.len(),
{
    if a.len() == 0 {
        assert(a + b =~= b);
        assert(with_name(a, n) + with_name(b, n) =~= with_name(b, n));
    } else {
        assert((a + b).drop_first() =~= a.drop_first() + b);
        lemma_with_name_add(a.drop_first(), b, n);
        assert((a + b)[0] == a[0]);
        let h = if a[0].name@ == n {
            seq![a[0]]
        } else {
            Seq::<SyncFile>::empty()
        };
        assert(h + (with_name(a.drop_first(), n) + with_name(b, n)) =~= (h + with_name(
            a.drop_first(),
            n,
        )) + with_name(b, n));
    }
}

/// No file of a sequence without the name `n` is selected by it.
pub proof fn lemma_with_name_none(files: Seq<SyncFile>, n: Seq<char>)
    requires
        forall|k: int| 0 <= k < files.len() ==> files[k].name@ != n,
    ensures
        with_name(files, n) == Seq::<SyncFile>::empty(),
    decreases files.len(),
{
    if files.len() > 0 {
        assert forall|k: int| 0 <= k < files.len() - 1 implies files.drop_first()[k].name@ != n by {
            assert(files.drop_first()[k] == files[k + 1]);
        }
        lemma_with_name_none(files.drop_first(), n);
        assert(Seq::<SyncFile>::empty() + Seq::<SyncFile>::empty() =~= Seq::<SyncFile>::empty());
    }
}

/// Inserting an element adds it to the multiset of a sequence.
pub proof fn lemma_insert_to_multiset<A>(s: Seq<A>, p: int, x: A)
    requires
        0 <= p <= s.len(),
    ensures
        s.insert(p, x).to_multiset() =~= s.to_multiset().insert(x),
{
    let t = s.insert(p, x);
    assert(t.remove(p) =~= s);
    t.to_multiset_ensures();
    assert(t[p] == x);
    assert(t.contains(x));
    assert(t.to_multiset().count(x) > 0);
    assert(t.to_multiset().remove(x) =~= s.to_multiset());
}

/// The files in ascending order of their names (code point order, which
/// is the byte order of their UTF-8 text that `String`'s `Ord` uses).
/// The result holds the same files, and files of the same name stay in
/// the order they came in (the sort is stable).
pub fn sort_env_files(files: Vec<SyncFile>) -> (r: Vec<SyncFile>)
    ensures
        sorted_by_name(r@),
        r@.to_multiset() =~= files@.to_multiset(),
        forall|n: Seq<char>| #[trigger] with_name(r@, n) == with_name(files@, n),
{
    let ghost orig = files@;
    let mut rest = files;
    let mut r: Vec<SyncFile> = Vec::new();
    assert(r@.to_multiset() =~= vstd::multiset::Multiset::empty()) by {
        r@.to_multiset_ensures();
    }
    assert forall|n: Seq<char>| #[trigger] with_name(r@, n) + with_name(rest@, n) == with_name(
        orig,
        n,
    ) by {
        assert(with_name(r@, n) + with_name(rest@, n) =~= with_name(rest@, n));
    }
    while rest.len() > 0
        invariant
            sorted_by_name(r@),
            r@.to_multiset().add(rest@.to_multiset()) =~= orig.to_multiset(),
            forall|n: Seq<char>| #[trigger] with_name(r@, n) + with_name(rest@, n) == with_name(orig, n),
        decreases rest@.len(),
    {
        let ghost rest_before = rest@;
        let x = rest.remove(0);
        proof {
            rest_before.to_multiset_ensures();
            assert(rest_before.remove(0) =~= rest@);
        }
        let mut p: usize = 0;
        while p < r.len() && !str_lt(x.name.as_str(), r[p].name.as_str())
            invariant
                p <= r@.len(),
                forall|k: int| 0 <= k < p ==> !chars_lt(x.name@, #[trigger] r@[k].name@),
            decreases r@.len() - p,
        {
            p = p + 1;
        }
        let ghost before = r@;
        r.insert(p, x);
        proof {
            lemma_insert_to_multiset(before, p as int, x);
            assert(r@ == before.insert(p as int, x));
            assert forall|i: int, j: int| 0 <= i < j < r@.len() implies !chars_lt(
                #[trigger] r@[j].name@,
                #[trigger] r@[i].name@,
            ) by {
                if j < p {
                    assert(r@[i] == before[i] && r@[j] == before[j]);
                } else if j == p {
                    assert(r@[i] == before[i]);
                } else if i == p {
                    assert(r@[j] == before[j - 1]);
                    assert(p < before.len());
                    assert(chars_lt(x.name@, before[p as int].name@));
                    if chars_lt(before[j - 1].name@, x.name@) {
                        if j - 1 == p {
                            lemma_chars_lt_asymmetric(x.name@, before[p as int].name@);
                        } else {
                            lemma_chars_lt_transitive(
                                before[j - 1].name@,
                                x.name@,
                                before[p as int].name@,
                            );
                        }
                    }
                } else if i < p {
                    assert(r@[i] == before[i] && r@[j] == before[j - 1]);
                } else {
                    assert(r@[i] == before[i - 1] && r@[j] == before[j - 1]);
                }
            }
            assert(rest_before =~= seq![x] + rest@);
            assert forall|n: Seq<char>| #[trigger] with_name(r@, n) + with_name(rest@, n) == with_name(
                orig,
                n,
            ) by {
                let wx = if x.name@ == n {
                    seq![x]
                } else {
                    Seq::<SyncFile>::empty()
                };
                assert(rest_before[0] == x);
                assert(rest_before.drop_first() =~= rest@);
                assert(with_name(rest_before, n) == wx + with_name(rest@, n));
                let pre = before.take(p as int);
                let post = before.skip(p as int);
                assert(before =~= pre + post);
                assert(r@ =~= pre + (seq![x] + post));
                lemma_with_name_add(pre, post, n);
                lemma_with_name_add(pre, seq![x] + post, n);
                lemma_with_name_add(seq![x], post, n);
                assert(seq![x].drop_first() =~= Seq::<SyncFile>::empty());
                assert(seq![x][0] == x);
                assert(with_name(Seq::<SyncFile>::empty(), n) == Seq::<SyncFile>::empty());
                assert(wx + Seq::<SyncFile>::empty() =~= wx);
                assert(with_name(seq![x], n) =~= wx);
                if x.name@ == n {
                    assert forall|k: int| 0 <= k < post.len() implies post[k].name@ != n by {
                        assert(post[k] == before[p + k]);
                        assert(chars_lt(x.name@, before[p as int].name@));
                        if k == 0 {
                            lemma_chars_lt_irreflexive(x.name@);
                        } else {
                            assert(!chars_lt(before[p + k].name@, before[p as int].name@));
                        }
                    }
                    lemma_with_name_none(post, n);
                }
                assert(with_name(r@, n) + with_name(rest@, n) =~= with_name(before, n) + with_name(
                    rest_before,
                    n,
                ));
            }
        }
    }
    proof {
        rest@.to_multiset_ensures();
        assert(rest@.to_multiset() =~= vstd::multiset::Multiset::empty());
        assert forall|n: Seq<char>| #[trigger] with_name(r@, n) == with_name(orig, n) by {
            assert(with_name(rest@, n) == Seq::<SyncFile>::empty());
            assert(with_name(r@, n) + with_name(rest@, n) =~= with_name(r@, n));
        }
    }
    r
}

} // verus!
