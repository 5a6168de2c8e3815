use vstd::prelude::*;

use crate::ids::{
    MAX_ID_BYTES, all_id_chars, default_database, id_char, valid_collection_id,
    valid_database_id, valid_document_id, valid_project_id,
};
use crate::names::{
    MAX_NAME_BYTES, collection_name_segments, database_name_segments, document_name_segments,
    name_error, database_name_error, word_databases, word_documents, word_projects,
};
use crate::paths::{all_segments_ok, collection_segments, document_segments, segment_ok};
use crate::error::Error;
use crate::segments::{
    byte_len, join_slash, lemma_join_push, lemma_split_join, slash_free, split_slash,
};

verus! {

proof fn lemma_id_chars_slash_free(s: Seq<char>)
    requires
        all_id_chars(s),
    ensures
        slash_free(s),
{
    assert forall|i: int| 0 <= i < s.len() implies s[i] != '/' by {
        assert(id_char(s[i]));
    }
}

proof fn lemma_database_id_slash_free(s: Seq<char>)
    requires
        valid_database_id(s),
    ensures
        slash_free(s),
{
    if s == default_database() {
        assert(slash_free(s));
    } else {
        lemma_id_chars_slash_free(s);
    }
}

proof fn lemma_segments_slash_free(segs: Seq<Seq<char>>)
    requires
        all_segments_ok(segs),
    ensures
        forall|i: int| 0 <= i < segs.len() ==> slash_free(#[trigger] segs[i]),
{
    assert forall|i: int| 0 <= i < segs.len() implies slash_free(#[trigger] segs[i]) by {
        assert(segment_ok(segs, i));
    }
}

/// Parsing what a collection path prints gives back the same path: the
/// printed form splits into exactly the segments it was joined from.
pub proof fn lemma_collection_path_round_trip(segs: Seq<Seq<char>>)
    requires
        collection_segments(segs),
    ensures
        split_slash(join_slash(segs)) == segs,
        collection_segments(split_slash(join_slash(segs))),
{
    lemma_segments_slash_free(segs);
    lemma_split_join(segs);
}

/// Parsing what a document path prints gives back the same path.
pub proof fn lemma_document_path_round_trip(segs: Seq<Seq<char>>)
    requires
        document_segments(segs),
    ensures
        split_slash(join_slash(segs)) == segs,
        document_segments(split_slash(join_slash(segs))),
{
    lemma_segments_slash_free(segs);
    lemma_split_join(segs);
}

proof fn lemma_name_pieces_slash_free(segs: Seq<Seq<char>>)
    requires
        segs.len() > 5,
        database_name_segments(segs.subrange(0, 5)),
        all_segments_ok(segs.subrange(5, segs.len() as int)),
    ensures
        forall|i: int| 0 <= i < segs.len() ==> slash_free(#[trigger] segs[i]),
{
    let root = segs.subrange(0, 5);
    let rest = segs.subrange(5, segs.len() as int);
    lemma_segments_slash_free(rest);
    lemma_id_chars_slash_free(root[1]);
    lemma_database_id_slash_free(root[3]);
    assert(slash_free(word_projects()));
    assert(slash_free(word_databases()));
    assert(slash_free(word_documents()));
    assert forall|i: int| 0 <= i < segs.len() implies slash_free(#[trigger] segs[i]) by {
        if i < 5 {
            assert(segs[i] == root[i]);
        } else {
            assert(segs[i] == rest[i - 5]);
        }
    }
}

/// Parsing what a collection name prints gives back the same name, as long
/// as the printed form fits the length bound of names.
pub proof fn lemma_collection_name_round_trip(segs: Seq<Seq<char>>)
    requires
        collection_name_segments(segs),
    ensures
        split_slash(join_slash(segs)) == segs,
        byte_len(join_slash(segs)) <= MAX_NAME_BYTES ==> collection_name_segments(
            split_slash(join_slash(segs)),
        ),
{
    lemma_name_pieces_slash_free(segs);
    lemma_split_join(segs);
}

/// Parsing what a document name prints gives back the same name, as long as
/// the printed form fits the length bound of names.
pub proof fn lemma_document_name_round_trip(segs: Seq<Seq<char>>)
    requires
        document_name_segments(segs),
    ensures
        split_slash(join_slash(segs)) == segs,
        byte_len(join_slash(segs)) <= MAX_NAME_BYTES ==> document_name_segments(
            split_slash(join_slash(segs)),
        ),
{
    lemma_name_pieces_slash_free(segs);
    lemma_split_join(segs);
}

/// An identifier one byte or more over its bound is refused, whatever it holds.
pub proof fn lemma_identifier_over_bound(s: Seq<char>)
    requires
        byte_len(s) > MAX_ID_BYTES,
    ensures
        !valid_collection_id(s),
        !valid_document_id(s),
{
}

/// A project identifier over 30 bytes, or a database identifier over 63
/// bytes, is refused.
pub proof fn lemma_project_and_database_over_bound(s: Seq<char>)
    ensures
        byte_len(s) > 30 ==> !valid_project_id(s),
        byte_len(s) > 63 ==> !valid_database_id(s),
{
    if byte_len(s) > 63 && s == default_database() {
        assert(byte_len(s) == 9) by {
            reveal_with_fuel(vstd::utf8::encode_utf8, 10);
        }
    }
}

/// A name one byte or more over its bound is refused as too long, whatever
/// it holds.
pub proof fn lemma_name_over_bound(s: Seq<char>)
    requires
        byte_len(s) > MAX_NAME_BYTES,
    ensures
        name_error(s, true) == Error::TooLong,
        name_error(s, false) == Error::TooLong,
        database_name_error(s) == Error::TooLong,
{
}

/// The printed form of `p.doc(d).collection(c)` begins with the printed form
/// of `p`, followed by a separator.
pub proof fn lemma_child_extends_parent(p: Seq<Seq<char>>, d: Seq<char>, c: Seq<char>)
    requires
        p.len() >= 1,
    ensures
        (join_slash(p) + seq!['/']).is_prefix_of(join_slash(p.push(d).push(c))),
{
    lemma_join_push(p, d);
    lemma_join_push(p.push(d), c);
    let whole = join_slash(p.push(d).push(c));
    let pre = join_slash(p) + seq!['/'];
    assert(whole =~= pre + d + seq!['/'] + c);
    assert(whole.subrange(0, pre.len() as int) =~= pre);
}

} // verus!
