use vstd::prelude::*;
use vstd::std_specs::iter::IteratorSpec;
use vstd::utf8::encode_utf8;

verus! {

/// True when no character of `s` is the separator `/`.
pub open spec fn slash_free(s: Seq<char>) -> bool {
    forall|i: int| 0 <= i < s.len() ==> s[i] != '/'
}

/// The pieces of `s` between separators, empty pieces kept: the model of
/// splitting a string on every `/`.
pub open spec fn split_slash(s: Seq<char>) -> Seq<Seq<char>>
    decreases s.len(),
{
    if s.len() == 0 {
        seq![Seq::<char>::empty()]
    } else {
        let prev = split_slash(s.drop_last());
        if s.last() == '/' {
            prev.push(Seq::<char>::empty())
        } else {
            prev.update(prev.len() - 1, prev.last().push(s.last()))
        }
    }
}

/// The pieces of `segs` joined by `/`, first piece first.
pub open spec fn join_slash(segs: Seq<Seq<char>>) -> Seq<char>
    decreases segs.len(),
{
    if segs.len() == 0 {
        Seq::<char>::empty()
    } else if segs.len() == 1 {
        segs[0]
    } else {
        join_slash(segs.drop_last()) + seq!['/'] + segs.last()
    }
}

pub proof fn lemma_split_nonempty(s: Seq<char>)
    ensures
        split_slash(s).len() >= 1,
    decreases s.len(),
{
    if s.len() > 0 {
        lemma_split_nonempty(s.drop_last());
    }
}

proof fn lemma_split_append_free(p: Seq<char>, t: Seq<char>)
    requires
        slash_free(t),
    ensures
        ({
            let sp = split_slash(p);
            split_slash(p + t) == sp.update(sp.len() - 1, sp.last() + t)
        }),
    decreases t.len(),
{
    lemma_split_nonempty(p);
    let sp = split_slash(p);
    if t.len() == 0 {
        assert(p + t =~= p);
        assert(sp.last() + t =~= sp.last());
        assert(sp.update(sp.len() - 1, sp.last()) =~= sp);
    } else {
        let t0 = t.drop_last();
        assert(slash_free(t0));
        lemma_split_append_free(p, t0);
        assert((p + t).drop_last() =~= p + t0);
        assert((p + t).last() == t.last());
        let prev = split_slash(p + t0);
        assert(prev.last() =~= sp.last() + t0);
        assert((sp.last() + t0).push(t.last()) =~= sp.last() + t);
        assert(split_slash(p + t) =~= sp.update(sp.len() - 1, sp.last() + t));
    }
}

/// Splitting what was joined gives back the pieces, when none holds a separator.
pub proof fn lemma_split_join(segs: Seq<Seq<char>>)
    requires
        segs.len() >= 1,
        forall|i: int| 0 <= i < segs.len() ==> slash_free(#[trigger] segs[i]),
    ensures
        split_slash(join_slash(segs)) == segs,
    decreases segs.len(),
{
    if segs.len() == 1 {
        lemma_split_append_free(Seq::<char>::empty(), segs[0]);
        assert(Seq::<char>::empty() + segs[0] =~= segs[0]);
        assert(split_slash(Seq::<char>::empty()) =~= seq![Seq::<char>::empty()]);
        assert(Seq::<char>::empty() + segs[0] =~= segs[0]);
        assert(split_slash(segs[0]) =~= segs);
    } else {
        let rest = segs.drop_last();
        assert forall|i: int| 0 <= i < rest.len() implies slash_free(#[trigger] rest[i]) by {
            assert(rest[i] == segs[i]);
        }
        lemma_split_join(rest);
        let p = join_slash(rest) + seq!['/'];
        lemma_split_append_free(p, segs.last());
        assert(p.drop_last() =~= join_slash(rest));
        assert(split_slash(p) == rest.push(Seq::<char>::empty()));
        assert(join_slash(segs) =~= p + segs.last());
        assert(Seq::<char>::empty() + segs.last() =~= segs.last());
        assert(rest.push(Seq::<char>::empty()).update(rest.len() as int, segs.last()) =~= segs);
    }
}

proof fn lemma_join_extend_last(segs: Seq<Seq<char>>, c: char)
    requires
        segs.len() >= 1,
    ensures
        join_slash(segs.update(segs.len() - 1, segs.last().push(c))) == join_slash(segs).push(c),
{
    let u = segs.update(segs.len() - 1, segs.last().push(c));
    if segs.len() > 1 {
        assert(u.drop_last() =~= segs.drop_last());
        assert(join_slash(u) =~= join_slash(segs).push(c));
    }
}

/// Joining the pieces of a split gives back the text.
pub proof fn lemma_join_split(s: Seq<char>)
    ensures
        join_slash(split_slash(s)) == s,
    decreases s.len(),
{
    if s.len() > 0 {
        let s0 = s.drop_last();
        lemma_join_split(s0);
        lemma_split_nonempty(s0);
        let prev = split_slash(s0);
        if s.last() == '/' {
            let cur = prev.push(Seq::<char>::empty());
            assert(cur.drop_last() =~= prev);
            assert(join_slash(cur) =~= s);
        } else {
            lemma_join_extend_last(prev, s.last());
            assert(s0.push(s.last()) =~= s);
        }
    }
}

/// Joining after one more piece adds a separator and that piece.
pub proof fn lemma_join_push(segs: Seq<Seq<char>>, x: Seq<char>)
    requires
        segs.len() >= 1,
    ensures
        join_slash(segs.push(x)) == join_slash(segs) + seq!['/'] + x,
{
    assert(segs.push(x).drop_last() =~= segs);
}

/// Joining two non-empty lists of pieces joins their joins with a separator.
pub proof fn lemma_join_concat(a: Seq<Seq<char>>, b: Seq<Seq<char>>)
    requires
        a.len() >= 1,
        b.len() >= 1,
    ensures
        join_slash(a + b) == join_slash(a) + seq!['/'] + join_slash(b),
    decreases b.len(),
{
    if b.len() == 1 {
        assert(a + b =~= a.push(b[0]));
        lemma_join_push(a, b[0]);
    } else {
        let b0 = b.drop_last();
        lemma_join_concat(a, b0);
        assert((a + b).drop_last() =~= a + b0);
        assert(join_slash(a + b) =~= join_slash(a) + seq!['/'] + join_slash(b));
    }
}

/// Length of `s` in bytes, encoded as UTF-8.
pub open spec fn byte_len(s: Seq<char>) -> nat {
    encode_utf8(s).len()
}

/// Length of `s` in bytes.
pub fn byte_length(s: &str) -> (r: usize)
    ensures
        r == byte_len(s@),
{
    s.as_bytes().len()
}

/// The characters of `s`, in order.
pub fn chars_of(s: &str) -> (r: Vec<char>)
    ensures
        r@ == s@,
{
    let mut it = s.chars();
    let mut out: Vec<char> = Vec::new();
    loop
        invariant
            out@ + it.remaining() == s@,
            it.decrease() is Some,
        ensures
            out@ == s@,
        decreases it.decrease()->0,
    {
        match it.next() {
            Some(c) => {
                out.push(c);
            },
            None => {
                assert(it.remaining() =~= Seq::<char>::empty());
                break;
            },
        }
    }
    out
}

/// Relies on `String`'s `FromIterator<&char>`: the string holds the given
/// characters, in order.
#[verifier::external_body]
fn string_from_chars(v: &Vec<char>) -> (r: String)
    ensures
        r@ == v@,
{
    v.iter().collect()
}

/// The character sequences of a list of strings.
pub open spec fn views(v: Seq<String>) -> Seq<Seq<char>> {
    v.map_values(|x: String| x@)
}

/// Splits `s` on every `/`, keeping empty pieces.
pub fn split_on_slash(s: &str) -> (r: Vec<String>)
    ensures
        views(r@) == split_slash(s@),
        r@.len() >= 1,
{
    let cs = chars_of(s);
    let mut out: Vec<String> = Vec::new();
    let mut cur: Vec<char> = Vec::new();
    let mut i: usize = 0;
    while i < cs.len()
        invariant
            0 <= i <= cs.len(),
            cs@ == s@,
            views(out@).push(cur@) == split_slash(cs@.subrange(0, i as int)),
        decreases cs.len() - i,
    {
        let c = cs[i];
        proof {
            assert(cs@.subrange(0, i + 1).drop_last() =~= cs@.subrange(0, i as int));
        }
        if c == '/' {
            let piece = string_from_chars(&cur);
            proof {
                assert(views(out@.push(piece)) =~= views(out@).push(cur@));
            }
            out.push(piece);
            cur = Vec::new();
        } else {
            cur.push(c);
            proof {
                assert(views(out@).push(cur@) =~= split_slash(cs@.subrange(0, i + 1)));
            }
        }
        i = i + 1;
    }
    let piece = string_from_chars(&cur);
    proof {
        assert(views(out@.push(piece)) =~= views(out@).push(cur@));
        assert(cs@.subrange(0, cs@.len() as int) =~= cs@);
    }
    out.push(piece);
    out
}

} // verus!
