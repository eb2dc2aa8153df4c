//! The metadata extension codec: a strict encoder producing the canonical
//! compact JSON form, and a lenient decoder that yields `None` for absent,
//! empty, `{}`, or malformed raw field values. The decoder is specified by
//! a recursive parser over `Seq<char>`, and the encoder and decoder are
//! proved inverse.

use vstd::prelude::*;

use crate::jsontext::{
    spec_escape, spec_skip_value, spec_skip_ws, spec_str_rest,
};
use crate::task::{bookmarks_view, Bookmark, BookmarkView, ContextswitchData, ContextswitchDataView};

verus! {

/// The characters of the bookmark URI key.
pub open spec fn key_uri() -> Seq<char> {
    seq!['u', 'r', 'i']
}

/// The characters of the bookmark content key.
pub open spec fn key_content() -> Seq<char> {
    seq!['c', 'o', 'n', 't', 'e', 'n', 't']
}

/// The characters of the metadata bookmarks key.
pub open spec fn key_bookmarks() -> Seq<char> {
    seq!['b', 'o', 'o', 'k', 'm', 'a', 'r', 'k', 's']
}

/// The canonical compact encoding of one bookmark: the URI field always,
/// the content field only when present.
pub open spec fn spec_encode_bookmark(b: BookmarkView) -> Seq<char> {
    seq!['{', '"', 'u', 'r', 'i', '"', ':', '"'] + spec_escape(b.uri) + seq!['"'] + (match b.content {
        Some(c) => seq![',', '"', 'c', 'o', 'n', 't', 'e', 'n', 't', '"', ':', '"'] + spec_escape(c)
            + seq!['"'],
        None => Seq::empty(),
    }) + seq!['}']
}

/// The encodings of the bookmarks after the first, each preceded by a
/// comma.
pub open spec fn spec_encode_more(bs: Seq<BookmarkView>) -> Seq<char>
    decreases bs.len(),
{
    if bs.len() == 0 {
        Seq::empty()
    } else {
        seq![','] + spec_encode_bookmark(bs[0]) + spec_encode_more(bs.skip(1))
    }
}

/// The comma-separated encodings of a bookmark list.
pub open spec fn spec_encode_bookmarks(bs: Seq<BookmarkView>) -> Seq<char> {
    if bs.len() == 0 {
        Seq::empty()
    } else {
        spec_encode_bookmark(bs[0]) + spec_encode_more(bs.skip(1))
    }
}

/// The canonical compact encoding of the metadata extension.
pub open spec fn spec_encode_metadata(m: ContextswitchDataView) -> Seq<char> {
    seq!['{', '"', 'b', 'o', 'o', 'k', 'm', 'a', 'r', 'k', 's', '"', ':', '[']
        + spec_encode_bookmarks(m.bookmarks) + seq![']', '}']
}

/// Reads the members of a bookmark object, from the opening quote of a
/// key; `uri` and `content` hold the fields read so far (the outer option
/// of `content` records that the key occurred, so that a duplicate is
/// rejected).
pub open spec fn spec_bookmark_fields(
    s: Seq<char>,
    uri: Option<Seq<char>>,
    content: Option<Option<Seq<char>>>,
) -> Option<(BookmarkView, Seq<char>)>
    decreases s.len(), 1int,
{
    if s.len() == 0 || s[0] != '"' {
        None
    } else {
        match spec_str_rest(s.skip(1)) {
            Some((key, r1)) => {
                let r2 = spec_skip_ws(r1);
                if r2.len() > 0 && r2[0] == ':' {
                    let r3 = spec_skip_ws(r2.skip(1));
                    if key == key_uri() {
                        if uri is Some {
                            None
                        } else if r3.len() > 0 && r3[0] == '"' {
                            match spec_str_rest(r3.skip(1)) {
                                Some((val, r4)) => spec_bookmark_after_field(
                                    s,
                                    Some(val),
                                    content,
                                    r4,
                                ),
                                None => None,
                            }
                        } else {
                            None
                        }
                    } else if key == key_content() {
                        if content is Some {
                            None
                        } else if r3.len() > 0 && r3[0] == '"' {
                            match spec_str_rest(r3.skip(1)) {
                                Some((val, r4)) => spec_bookmark_after_field(
                                    s,
                                    uri,
                                    Some(Some(val)),
                                    r4,
                                ),
                                None => None,
                            }
                        } else if r3.len() >= 4 && r3[0] == 'n' && r3[1] == 'u' && r3[2] == 'l'
                            && r3[3] == 'l' {
                            spec_bookmark_after_field(s, uri, Some(None), r3.skip(4))
                        } else {
                            None
                        }
                    } else {
                        if r3.len() <= s.len() {
                            match spec_skip_value(r3) {
                                Some(r4) => spec_bookmark_after_field(s, uri, content, r4),
                                None => None,
                            }
                        } else {
                            None
                        }
                    }
                } else {
                    None
                }
            },
            None => None,
        }
    }
}

/// Continues a bookmark object after one member: a closing brace ends the
/// object (the URI is required), a comma leads to the next member.
pub open spec fn spec_bookmark_after_field(
    s_orig: Seq<char>,
    uri: Option<Seq<char>>,
    content: Option<Option<Seq<char>>>,
    r: Seq<char>,
) -> Option<(BookmarkView, Seq<char>)>
    decreases s_orig.len(), 0int,
{
    let r5 = spec_skip_ws(r);
    if r5.len() > 0 && r5[0] == '}' {
        match uri {
            Some(u) => Some(
                (
                    BookmarkView {
                        uri: u,
                        content: match content {
                            Some(c) => c,
                            None => None,
                        },
                    },
                    r5.skip(1),
                ),
            ),
            None => None,
        }
    } else if r5.len() > 0 && r5[0] == ',' {
        let r6 = spec_skip_ws(r5.skip(1));
        if r6.len() < s_orig.len() {
            spec_bookmark_fields(r6, uri, content)
        } else {
            None
        }
    } else {
        None
    }
}

/// Reads one bookmark object.
pub open spec fn spec_parse_bookmark(s: Seq<char>) -> Option<(BookmarkView, Seq<char>)> {
    if s.len() > 0 && s[0] == '{' {
        spec_bookmark_fields(spec_skip_ws(s.skip(1)), None, None)
    } else {
        None
    }
}

/// Reads the elements of the bookmarks array, from the first character of
/// an element; ends after the closing bracket.
pub open spec fn spec_bm_elems(s: Seq<char>, acc: Seq<BookmarkView>) -> Option<
    (Seq<BookmarkView>, Seq<char>),
>
    decreases s.len(),
{
    match spec_parse_bookmark(s) {
        Some((bv, r)) => {
            let r1 = spec_skip_ws(r);
            if r1.len() > 0 && r1[0] == ']' {
                Some((acc.push(bv), r1.skip(1)))
            } else if r1.len() > 0 && r1[0] == ',' {
                let r2 = spec_skip_ws(r1.skip(1));
                if r2.len() < s.len() {
                    spec_bm_elems(r2, acc.push(bv))
                } else {
                    None
                }
            } else {
                None
            }
        },
        None => None,
    }
}

/// Reads the bookmarks array.
pub open spec fn spec_parse_bm_array(s: Seq<char>) -> Option<(Seq<BookmarkView>, Seq<char>)> {
    if s.len() > 0 && s[0] == '[' {
        let s1 = spec_skip_ws(s.skip(1));
        if s1.len() > 0 && s1[0] == ']' {
            Some((Seq::empty(), s1.skip(1)))
        } else {
            spec_bm_elems(s1, Seq::empty())
        }
    } else {
        None
    }
}

/// Reads the members of the metadata object, from the opening quote of a
/// key; `bms` holds the bookmarks once their key has been read.
pub open spec fn spec_metadata_fields(s: Seq<char>, bms: Option<Seq<BookmarkView>>) -> Option<
    (ContextswitchDataView, Seq<char>),
>
    decreases s.len(), 1int,
{
    if s.len() == 0 || s[0] != '"' {
        None
    } else {
        match spec_str_rest(s.skip(1)) {
            Some((key, r1)) => {
                let r2 = spec_skip_ws(r1);
                if r2.len() > 0 && r2[0] == ':' {
                    let r3 = spec_skip_ws(r2.skip(1));
                    if key == key_bookmarks() {
                        if bms is Some {
                            None
                        } else {
                            match spec_parse_bm_array(r3) {
                                Some((bs, r4)) => spec_metadata_after_field(s, Some(bs), r4),
                                None => None,
                            }
                        }
                    } else {
                        if r3.len() <= s.len() {
                            match spec_skip_value(r3) {
                                Some(r4) => spec_metadata_after_field(s, bms, r4),
                                None => None,
                            }
                        } else {
                            None
                        }
                    }
                } else {
                    None
                }
            },
            None => None,
        }
    }
}

/// Continues the metadata object after one member.
pub open spec fn spec_metadata_after_field(
    s_orig: Seq<char>,
    bms: Option<Seq<BookmarkView>>,
    r: Seq<char>,
) -> Option<(ContextswitchDataView, Seq<char>)>
    decreases s_orig.len(), 0int,
{
    let r5 = spec_skip_ws(r);
    if r5.len() > 0 && r5[0] == '}' {
        match bms {
            Some(bs) => Some((ContextswitchDataView { bookmarks: bs }, r5.skip(1))),
            None => None,
        }
    } else if r5.len() > 0 && r5[0] == ',' {
        let r6 = spec_skip_ws(r5.skip(1));
        if r6.len() < s_orig.len() {
            spec_metadata_fields(r6, bms)
        } else {
            None
        }
    } else {
        None
    }
}

/// Reads the metadata object.
pub open spec fn spec_parse_metadata_obj(s: Seq<char>) -> Option<
    (ContextswitchDataView, Seq<char>),
> {
    if s.len() > 0 && s[0] == '{' {
        spec_metadata_fields(spec_skip_ws(s.skip(1)), None)
    } else {
        None
    }
}

/// Reads a whole raw field text as the metadata object, allowing
/// surrounding whitespace and nothing else.
pub open spec fn spec_parse_metadata_text(s: Seq<char>) -> Option<ContextswitchDataView> {
    match spec_parse_metadata_obj(spec_skip_ws(s)) {
        Some((mv, r)) => {
            if spec_skip_ws(r).len() == 0 {
                Some(mv)
            } else {
                None
            }
        },
        None => None,
    }
}

/// The lenient decoding of a raw field text: empty text and the literal
/// `{}` stand for absence, and any text that is not the metadata object
/// yields `None`.
pub open spec fn spec_decode_metadata(s: Seq<char>) -> Option<ContextswitchDataView> {
    if s.len() == 0 || s == seq!['{', '}'] {
        None
    } else {
        spec_parse_metadata_text(s)
    }
}

/// The lenient decoding of the raw metadata field: an absent field stands
/// for absence.
pub open spec fn spec_decode_metadata_field(o: Option<Seq<char>>) -> Option<
    ContextswitchDataView,
> {
    match o {
        Some(s) => spec_decode_metadata(s),
        None => None,
    }
}

/// The view of an optional string.
pub open spec fn opt_view(o: Option<String>) -> Option<Seq<char>> {
    match o {
        Some(s) => Some(s@),
        None => None,
    }
}

/// The view of the content accumulator.
pub open spec fn opt2_view(o: Option<Option<String>>) -> Option<Option<Seq<char>>> {
    match o {
        Some(c) => Some(opt_view(c)),
        None => None,
    }
}

/// Appends the canonical encoding of one bookmark.
fn encode_bookmark_into(b: &Bookmark, out: &mut Vec<char>)
    ensures
        final(out)@ == old(out)@ + spec_encode_bookmark(b@),
{
    let ghost orig = out@;
    out.push('{');
    out.push('"');
    out.push('u');
    out.push('r');
    out.push('i');
    out.push('"');
    out.push(':');
    out.push('"');
    crate::jsontext::push_escaped(out, b.uri.as_str());
    out.push('"');
    match &b.content {
        Some(c) => {
            out.push(',');
            out.push('"');
            out.push('c');
            out.push('o');
            out.push('n');
            out.push('t');
            out.push('e');
            out.push('n');
            out.push('t');
            out.push('"');
            out.push(':');
            out.push('"');
            crate::jsontext::push_escaped(out, c.as_str());
            out.push('"');
        },
        None => {},
    }
    out.push('}');
    proof {
        assert(out@ =~= orig + spec_encode_bookmark(b@));
    }
}

/// Appends the encodings of the bookmarks after the first.
fn encode_more_into(bs: &[Bookmark], out: &mut Vec<char>)
    ensures
        final(out)@ == old(out)@ + spec_encode_more(bookmarks_view(bs@)),
    decreases bs@.len(),
{
    if bs.len() == 0 {
        proof {
            assert(out@ =~= out@ + spec_encode_more(bookmarks_view(bs@)));
        }
    } else {
        let ghost orig = out@;
        out.push(',');
        encode_bookmark_into(vstd::slice::slice_index_get(bs, 0), out);
        let rest = vstd::slice::slice_subrange(bs, 1, bs.len());
        proof {
            assert(rest@ =~= bs@.skip(1));
        }
        encode_more_into(rest, out);
        proof {
            assert(bookmarks_view(bs@).skip(1) =~= bookmarks_view(bs@.skip(1)));
            assert(bookmarks_view(bs@)[0] == bs@[0]@);
            assert(out@ =~= orig + spec_encode_more(bookmarks_view(bs@)));
        }
    }
}

/// Appends the comma-separated encodings of a bookmark list.
fn encode_bookmarks_into(bs: &[Bookmark], out: &mut Vec<char>)
    ensures
        final(out)@ == old(out)@ + spec_encode_bookmarks(bookmarks_view(bs@)),
{
    if bs.len() == 0 {
        proof {
            assert(out@ =~= out@ + spec_encode_bookmarks(bookmarks_view(bs@)));
        }
    } else {
        let ghost orig = out@;
        encode_bookmark_into(vstd::slice::slice_index_get(bs, 0), out);
        let rest = vstd::slice::slice_subrange(bs, 1, bs.len());
        proof {
            assert(rest@ =~= bs@.skip(1));
        }
        encode_more_into(rest, out);
        proof {
            assert(bookmarks_view(bs@).skip(1) =~= bookmarks_view(bs@.skip(1)));
            assert(bookmarks_view(bs@)[0] == bs@[0]@);
            assert(out@ =~= orig + spec_encode_bookmarks(bookmarks_view(bs@)));
        }
    }
}

/// Encodes the metadata extension in its canonical compact JSON form.
/// Outbound encoding is strict and total: every value has exactly this
/// one encoding.
pub fn encode_metadata(data: &ContextswitchData) -> (r: String)
    ensures
        r@ == spec_encode_metadata(data@),
{
    let mut out: Vec<char> = Vec::new();
    out.push('{');
    out.push('"');
    out.push('b');
    out.push('o');
    out.push('o');
    out.push('k');
    out.push('m');
    out.push('a');
    out.push('r');
    out.push('k');
    out.push('s');
    out.push('"');
    out.push(':');
    out.push('[');
    encode_bookmarks_into(data.bookmarks.as_slice(), &mut out);
    out.push(']');
    out.push('}');
    proof {
        assert(out@ =~= spec_encode_metadata(data@));
    }
    crate::chars::string_of(&out)
}

/// The clearing convention of the raw field: `Some` data encodes to its
/// canonical JSON text, absence encodes to the empty string, which clears
/// the field in the external store.
pub fn encode_metadata_field(data: &Option<ContextswitchData>) -> (r: String)
    ensures
        match data {
            Some(d) => r@ == spec_encode_metadata(d@),
            None => r@ == Seq::<char>::empty(),
        },
{
    match data {
        Some(d) => encode_metadata(d),
        None => {
            let s = String::new();
            s
        },
    }
}

/// Reads the members of a bookmark object.
fn bookmark_fields<'a>(
    s: &'a [char],
    uri: Option<String>,
    content: Option<Option<String>>,
) -> (r: Option<(Bookmark, &'a [char])>)
    ensures
        match spec_bookmark_fields(s@, opt_view(uri), opt2_view(content)) {
            Some((bv, rest)) => r matches Some((b, rl)) && b@ == bv && rl@ == rest,
            None => r is None,
        },
    decreases s@.len(), 1int,
{
    if s.len() == 0 || s[0] != '"' {
        return None;
    }
    let mut key: Vec<char> = Vec::new();
    match crate::jsontext::parse_str_rest(crate::jsontext::skip(s, 1), &mut key) {
        Some(r1) => {
            let r2 = crate::jsontext::ws(r1);
            if r2.len() > 0 && r2[0] == ':' {
                let r3 = crate::jsontext::ws(crate::jsontext::skip(r2, 1));
                let is_uri_key = crate::chars::chars_eq_str(&key, "uri");
                let is_content_key = crate::chars::chars_eq_str(&key, "content");
                proof {
                    reveal_strlit("uri");
                    reveal_strlit("content");
                    assert("uri"@ =~= key_uri());
                    assert("content"@ =~= key_content());
                }
                if is_uri_key {
                    if uri.is_some() {
                        None
                    } else if r3.len() > 0 && r3[0] == '"' {
                        let mut val: Vec<char> = Vec::new();
                        match crate::jsontext::parse_str_rest(
                            crate::jsontext::skip(r3, 1),
                            &mut val,
                        ) {
                            Some(r4) => {
                                let v = crate::chars::string_of(&val);
                                bookmark_after_field(s, Some(v), content, r4)
                            },
                            None => None,
                        }
                    } else {
                        None
                    }
                } else if is_content_key {
                    if content.is_some() {
                        None
                    } else if r3.len() > 0 && r3[0] == '"' {
                        let mut val: Vec<char> = Vec::new();
                        match crate::jsontext::parse_str_rest(
                            crate::jsontext::skip(r3, 1),
                            &mut val,
                        ) {
                            Some(r4) => {
                                let v = crate::chars::string_of(&val);
                                bookmark_after_field(s, uri, Some(Some(v)), r4)
                            },
                            None => None,
                        }
                    } else if r3.len() >= 4 && r3[0] == 'n' && r3[1] == 'u' && r3[2] == 'l'
                        && r3[3] == 'l' {
                        bookmark_after_field(s, uri, Some(None), crate::jsontext::skip(r3, 4))
                    } else {
                        None
                    }
                } else {
                    if r3.len() <= s.len() {
                        match crate::jsontext::skip_value(r3) {
                            Some(r4) => bookmark_after_field(s, uri, content, r4),
                            None => None,
                        }
                    } else {
                        None
                    }
                }
            } else {
                None
            }
        },
        None => None,
    }
}

/// Continues a bookmark object after one member.
fn bookmark_after_field<'a>(
    s_orig: &'a [char],
    uri: Option<String>,
    content: Option<Option<String>>,
    r: &'a [char],
) -> (res: Option<(Bookmark, &'a [char])>)
    ensures
        match spec_bookmark_after_field(s_orig@, opt_view(uri), opt2_view(content), r@) {
            Some((bv, rest)) => res matches Some((b, rl)) && b@ == bv && rl@ == rest,
            None => res is None,
        },
    decreases s_orig@.len(), 0int,
{
    let r5 = crate::jsontext::ws(r);
    if r5.len() > 0 && r5[0] == '}' {
        match uri {
            Some(u) => Some(
                (
                    Bookmark {
                        uri: u,
                        content: match content {
                            Some(c) => c,
                            None => None,
                        },
                    },
                    crate::jsontext::skip(r5, 1),
                ),
            ),
            None => None,
        }
    } else if r5.len() > 0 && r5[0] == ',' {
        let r6 = crate::jsontext::ws(crate::jsontext::skip(r5, 1));
        if r6.len() < s_orig.len() {
            bookmark_fields(r6, uri, content)
        } else {
            None
        }
    } else {
        None
    }
}

/// Reads one bookmark object.
fn parse_bookmark<'a>(s: &'a [char]) -> (r: Option<(Bookmark, &'a [char])>)
    ensures
        match spec_parse_bookmark(s@) {
            Some((bv, rest)) => r matches Some((b, rl)) && b@ == bv && rl@ == rest,
            None => r is None,
        },
{
    if s.len() > 0 && s[0] == '{' {
        bookmark_fields(crate::jsontext::ws(crate::jsontext::skip(s, 1)), None, None)
    } else {
        None
    }
}

/// Reads the elements of the bookmarks array.
fn bm_elems<'a>(s: &'a [char], acc: Vec<Bookmark>) -> (r: Option<(Vec<Bookmark>, &'a [char])>)
    ensures
        match spec_bm_elems(s@, bookmarks_view(acc@)) {
            Some((bs, rest)) => r matches Some((v, rl)) && bookmarks_view(v@) == bs && rl@ == rest,
            None => r is None,
        },
    decreases s@.len(),
{
    match parse_bookmark(s) {
        Some((bv, rr)) => {
            let r1 = crate::jsontext::ws(rr);
            if r1.len() > 0 && r1[0] == ']' {
                let mut v = acc;
                let ghost accv = bookmarks_view(v@);
                v.push(bv);
                proof {
                    assert(bookmarks_view(v@) =~= accv.push(v@[v@.len() - 1]@));
                }
                Some((v, crate::jsontext::skip(r1, 1)))
            } else if r1.len() > 0 && r1[0] == ',' {
                let r2 = crate::jsontext::ws(crate::jsontext::skip(r1, 1));
                if r2.len() < s.len() {
                    let mut v = acc;
                    let ghost accv = bookmarks_view(v@);
                    v.push(bv);
                    proof {
                        assert(bookmarks_view(v@) =~= accv.push(v@[v@.len() - 1]@));
                    }
                    bm_elems(r2, v)
                } else {
                    None
                }
            } else {
                None
            }
        },
        None => None,
    }
}

/// Reads the bookmarks array.
fn parse_bm_array<'a>(s: &'a [char]) -> (r: Option<(Vec<Bookmark>, &'a [char])>)
    ensures
        match spec_parse_bm_array(s@) {
            Some((bs, rest)) => r matches Some((v, rl)) && bookmarks_view(v@) == bs && rl@ == rest,
            None => r is None,
        },
{
    if s.len() > 0 && s[0] == '[' {
        let s1 = crate::jsontext::ws(crate::jsontext::skip(s, 1));
        if s1.len() > 0 && s1[0] == ']' {
            let v: Vec<Bookmark> = Vec::new();
            proof {
                assert(bookmarks_view(v@) =~= Seq::<BookmarkView>::empty());
            }
            Some((v, crate::jsontext::skip(s1, 1)))
        } else {
            let v: Vec<Bookmark> = Vec::new();
            proof {
                assert(bookmarks_view(v@) =~= Seq::<BookmarkView>::empty());
            }
            bm_elems(s1, v)
        }
    } else {
        None
    }
}

/// The view of the bookmarks accumulator.
pub open spec fn opt_bms_view(o: Option<Vec<Bookmark>>) -> Option<Seq<BookmarkView>> {
    match o {
        Some(v) => Some(bookmarks_view(v@)),
        None => None,
    }
}

/// Reads the members of the metadata object.
fn metadata_fields<'a>(s: &'a [char], bms: Option<Vec<Bookmark>>) -> (r: Option<
    (ContextswitchData, &'a [char]),
>)
    ensures
        match spec_metadata_fields(s@, opt_bms_view(bms)) {
            Some((mv, rest)) => r matches Some((d, rl)) && d@ == mv && rl@ == rest,
            None => r is None,
        },
    decreases s@.len(), 1int,
{
    if s.len() == 0 || s[0] != '"' {
        return None;
    }
    let mut key: Vec<char> = Vec::new();
    match crate::jsontext::parse_str_rest(crate::jsontext::skip(s, 1), &mut key) {
        Some(r1) => {
            let r2 = crate::jsontext::ws(r1);
            if r2.len() > 0 && r2[0] == ':' {
                let r3 = crate::jsontext::ws(crate::jsontext::skip(r2, 1));
                let is_bookmarks_key = crate::chars::chars_eq_str(&key, "bookmarks");
                proof {
                    reveal_strlit("bookmarks");
                    assert("bookmarks"@ =~= key_bookmarks());
                }
                if is_bookmarks_key {
                    if bms.is_some() {
                        None
                    } else {
                        match parse_bm_array(r3) {
                            Some((bs, r4)) => metadata_after_field(s, Some(bs), r4),
                            None => None,
                        }
                    }
                } else {
                    if r3.len() <= s.len() {
                        match crate::jsontext::skip_value(r3) {
                            Some(r4) => metadata_after_field(s, bms, r4),
                            None => None,
                        }
                    } else {
                        None
                    }
                }
            } else {
                None
            }
        },
        None => None,
    }
}

/// Continues the metadata object after one member.
fn metadata_after_field<'a>(
    s_orig: &'a [char],
    bms: Option<Vec<Bookmark>>,
    r: &'a [char],
) -> (res: Option<(ContextswitchData, &'a [char])>)
    ensures
        match spec_metadata_after_field(s_orig@, opt_bms_view(bms), r@) {
            Some((mv, rest)) => res matches Some((d, rl)) && d@ == mv && rl@ == rest,
            None => res is None,
        },
    decreases s_orig@.len(), 0int,
{
    let r5 = crate::jsontext::ws(r);
    if r5.len() > 0 && r5[0] == '}' {
        match bms {
            Some(bs) => Some((ContextswitchData { bookmarks: bs }, crate::jsontext::skip(r5, 1))),
            None => None,
        }
    } else if r5.len() > 0 && r5[0] == ',' {
        let r6 = crate::jsontext::ws(crate::jsontext::skip(r5, 1));
        if r6.len() < s_orig.len() {
            metadata_fields(r6, bms)
        } else {
            None
        }
    } else {
        None
    }
}

/// Reads the metadata object.
fn parse_metadata_obj<'a>(s: &'a [char]) -> (r: Option<(ContextswitchData, &'a [char])>)
    ensures
        match spec_parse_metadata_obj(s@) {
            Some((mv, rest)) => r matches Some((d, rl)) && d@ == mv && rl@ == rest,
            None => r is None,
        },
{
    if s.len() > 0 && s[0] == '{' {
        metadata_fields(crate::jsontext::ws(crate::jsontext::skip(s, 1)), None)
    } else {
        None
    }
}

/// Reads a whole raw field text as the metadata object.
fn parse_metadata_text(s: &[char]) -> (r: Option<ContextswitchData>)
    ensures
        match spec_parse_metadata_text(s@) {
            Some(mv) => r matches Some(d) && d@ == mv,
            None => r is None,
        },
{
    match parse_metadata_obj(crate::jsontext::ws(s)) {
        Some((d, rest)) => {
            if crate::jsontext::ws(rest).len() == 0 {
                Some(d)
            } else {
                None
            }
        },
        None => None,
    }
}

/// Reading the encoded form of one bookmark recovers exactly that
/// bookmark.
#[verifier::rlimit(100)]
proof fn lemma_parse_bookmark_encoded(b: BookmarkView, rest: Seq<char>)
    ensures
        spec_parse_bookmark(spec_encode_bookmark(b) + rest) == Some((b, rest)),
{
    let s = spec_encode_bookmark(b) + rest;
    let cpart: Seq<char> = match b.content {
        Some(c) => seq![',', '"', 'c', 'o', 'n', 't', 'e', 'n', 't', '"', ':', '"'] + spec_escape(c)
            + seq!['"'],
        None => Seq::empty(),
    };
    let tail2 = cpart + seq!['}'] + rest;
    let after_brace = seq!['"', 'u', 'r', 'i', '"', ':', '"'] + spec_escape(b.uri) + seq!['"']
        + tail2;
    assert(s =~= seq!['{'] + after_brace);
    assert(s[0] == '{');
    assert(s.skip(1) =~= after_brace);
    assert(after_brace[0] == '"');
    assert(crate::jsontext::spec_skip_ws(after_brace) == after_brace);
    let rtail = seq![':', '"'] + spec_escape(b.uri) + seq!['"'] + tail2;
    assert(key_uri()[0] == 'u' && key_uri()[1] == 'r' && key_uri()[2] == 'i');
    assert(forall|i: int|
        0 <= i < key_uri().len() ==> crate::jsontext::spec_plain_char(#[trigger] key_uri()[i]));
    crate::jsontext::lemma_escape_plain(key_uri());
    assert(after_brace.skip(1) =~= spec_escape(key_uri()) + seq!['"'] + rtail);
    crate::jsontext::lemma_str_rest_escaped(key_uri(), rtail);
    assert(spec_str_rest(after_brace.skip(1)) == Some((key_uri(), rtail)));
    assert(rtail[0] == ':');
    assert(crate::jsontext::spec_skip_ws(rtail) == rtail);
    let uval = seq!['"'] + (spec_escape(b.uri) + seq!['"'] + tail2);
    assert(rtail.skip(1) =~= uval);
    assert(uval[0] == '"');
    assert(crate::jsontext::spec_skip_ws(uval) == uval);
    assert(uval.skip(1) =~= spec_escape(b.uri) + seq!['"'] + tail2);
    crate::jsontext::lemma_str_rest_escaped(b.uri, tail2);
    assert(spec_str_rest(uval.skip(1)) == Some((b.uri, tail2)));
    match b.content {
        None => {
            assert(tail2 =~= seq!['}'] + rest);
            assert(tail2[0] == '}');
            assert(crate::jsontext::spec_skip_ws(tail2) == tail2);
            assert(tail2.skip(1) =~= rest);
            assert(BookmarkView { uri: b.uri, content: None } == b);
            assert(spec_bookmark_after_field(after_brace, Some(b.uri), None, tail2) == Some(
                (b, rest),
            ));
        },
        Some(cv) => {
            let closing = seq!['}'] + rest;
            let kv2 = seq!['"', 'c', 'o', 'n', 't', 'e', 'n', 't', '"', ':', '"'] + spec_escape(cv)
                + seq!['"'] + closing;
            assert(tail2 =~= seq![','] + kv2);
            assert(tail2[0] == ',');
            assert(crate::jsontext::spec_skip_ws(tail2) == tail2);
            assert(tail2.skip(1) =~= kv2);
            assert(kv2[0] == '"');
            assert(crate::jsontext::spec_skip_ws(kv2) == kv2);
            assert(kv2.len() < after_brace.len());
            // the second member: the content key and its string value
            let rtail2 = seq![':', '"'] + spec_escape(cv) + seq!['"'] + closing;
            assert(key_content()[0] == 'c' && key_content()[1] == 'o' && key_content()[2] == 'n'
                && key_content()[3] == 't' && key_content()[4] == 'e' && key_content()[5] == 'n'
                && key_content()[6] == 't');
            assert(forall|i: int|
                0 <= i < key_content().len() ==> crate::jsontext::spec_plain_char(
                    #[trigger] key_content()[i],
                ));
            crate::jsontext::lemma_escape_plain(key_content());
            assert(kv2.skip(1) =~= spec_escape(key_content()) + seq!['"'] + rtail2);
            crate::jsontext::lemma_str_rest_escaped(key_content(), rtail2);
            assert(spec_str_rest(kv2.skip(1)) == Some((key_content(), rtail2)));
            assert(key_content().len() != key_uri().len());
            assert(key_content() != key_uri());
            assert(rtail2[0] == ':');
            assert(crate::jsontext::spec_skip_ws(rtail2) == rtail2);
            let cval = seq!['"'] + (spec_escape(cv) + seq!['"'] + closing);
            assert(rtail2.skip(1) =~= cval);
            assert(cval[0] == '"');
            assert(crate::jsontext::spec_skip_ws(cval) == cval);
            assert(cval.skip(1) =~= spec_escape(cv) + seq!['"'] + closing);
            crate::jsontext::lemma_str_rest_escaped(cv, closing);
            assert(spec_str_rest(cval.skip(1)) == Some((cv, closing)));
            assert(closing[0] == '}');
            assert(crate::jsontext::spec_skip_ws(closing) == closing);
            assert(closing.skip(1) =~= rest);
            assert(BookmarkView { uri: b.uri, content: Some(cv) } == b);
            assert(spec_bookmark_after_field(kv2, Some(b.uri), Some(Some(cv)), closing) == Some(
                (b, rest),
            ));
            assert(spec_bookmark_fields(kv2, Some(b.uri), None) == Some((b, rest)));
            assert(spec_bookmark_after_field(after_brace, Some(b.uri), None, tail2) == Some(
                (b, rest),
            ));
        },
    }
    assert(spec_bookmark_fields(after_brace, None, None) == Some((b, rest)));
    assert(spec_parse_bookmark(s) == Some((b, rest)));
}

/// Reading the encoded elements of a bookmark list up to the closing
/// bracket appends exactly those bookmarks.
proof fn lemma_bm_elems_encoded(
    b0: BookmarkView,
    more: Seq<BookmarkView>,
    acc: Seq<BookmarkView>,
    rest: Seq<char>,
)
    ensures
        spec_bm_elems(
            spec_encode_bookmark(b0) + spec_encode_more(more) + seq![']'] + rest,
            acc,
        ) == Some((acc.push(b0) + more, rest)),
    decreases more.len(),
{
    let s = spec_encode_bookmark(b0) + spec_encode_more(more) + seq![']'] + rest;
    if more.len() == 0 {
        let restp = seq![']'] + rest;
        assert(s =~= spec_encode_bookmark(b0) + restp);
        lemma_parse_bookmark_encoded(b0, restp);
        assert(restp[0] == ']');
        assert(crate::jsontext::spec_skip_ws(restp) == restp);
        assert(restp.skip(1) =~= rest);
        assert(acc.push(b0) + more =~= acc.push(b0));
        assert(spec_bm_elems(s, acc) == Some((acc.push(b0) + more, rest)));
    } else {
        let enc0 = spec_encode_more(more);
        assert(enc0 == seq![','] + spec_encode_bookmark(more[0]) + spec_encode_more(more.skip(1)));
        let nexts = spec_encode_bookmark(more[0]) + spec_encode_more(more.skip(1)) + seq![']']
            + rest;
        let restp = seq![','] + nexts;
        assert(s =~= spec_encode_bookmark(b0) + restp);
        lemma_parse_bookmark_encoded(b0, restp);
        assert(restp[0] == ',');
        assert(crate::jsontext::spec_skip_ws(restp) == restp);
        assert(restp.skip(1) =~= nexts);
        assert(nexts[0] == '{');
        assert(crate::jsontext::spec_skip_ws(nexts) == nexts);
        assert(nexts.len() < s.len());
        lemma_bm_elems_encoded(more[0], more.skip(1), acc.push(b0), rest);
        assert(acc.push(b0).push(more[0]) + more.skip(1) =~= acc.push(b0) + more);
        assert(spec_bm_elems(s, acc) == Some((acc.push(b0) + more, rest)));
    }
}

/// Reading the encoded bookmarks array recovers exactly the encoded list.
proof fn lemma_parse_bm_array_encoded(bs: Seq<BookmarkView>, rest: Seq<char>)
    ensures
        spec_parse_bm_array(seq!['['] + spec_encode_bookmarks(bs) + seq![']'] + rest) == Some(
            (bs, rest),
        ),
{
    let s = seq!['['] + spec_encode_bookmarks(bs) + seq![']'] + rest;
    assert(s[0] == '[');
    if bs.len() == 0 {
        let inner = seq![']'] + rest;
        assert(s.skip(1) =~= inner);
        assert(inner[0] == ']');
        assert(crate::jsontext::spec_skip_ws(inner) == inner);
        assert(inner.skip(1) =~= rest);
        assert(Seq::<BookmarkView>::empty() =~= bs);
        assert(spec_parse_bm_array(s) == Some((bs, rest)));
    } else {
        let inner = spec_encode_bookmark(bs[0]) + spec_encode_more(bs.skip(1)) + seq![']'] + rest;
        assert(s.skip(1) =~= inner);
        assert(inner[0] == '{');
        assert(crate::jsontext::spec_skip_ws(inner) == inner);
        lemma_bm_elems_encoded(bs[0], bs.skip(1), Seq::empty(), rest);
        assert(Seq::<BookmarkView>::empty().push(bs[0]) + bs.skip(1) =~= bs);
        assert(spec_parse_bm_array(s) == Some((bs, rest)));
    }
}

/// Reading the encoded metadata object recovers exactly the encoded
/// value.
#[verifier::rlimit(60)]
proof fn lemma_parse_metadata_obj_encoded(m: ContextswitchDataView, rest: Seq<char>)
    ensures
        spec_parse_metadata_obj(spec_encode_metadata(m) + rest) == Some((m, rest)),
{
    let s = spec_encode_metadata(m) + rest;
    let closing = seq!['}'] + rest;
    let arr = seq!['['] + spec_encode_bookmarks(m.bookmarks) + seq![']'] + closing;
    let rtail = seq![':'] + arr;
    let after_brace = seq!['"', 'b', 'o', 'o', 'k', 'm', 'a', 'r', 'k', 's', '"'] + rtail;
    assert(s =~= seq!['{'] + after_brace);
    assert(s[0] == '{');
    assert(s.skip(1) =~= after_brace);
    assert(after_brace[0] == '"');
    assert(crate::jsontext::spec_skip_ws(after_brace) == after_brace);
    assert(key_bookmarks()[0] == 'b' && key_bookmarks()[1] == 'o' && key_bookmarks()[2] == 'o'
        && key_bookmarks()[3] == 'k' && key_bookmarks()[4] == 'm' && key_bookmarks()[5] == 'a'
        && key_bookmarks()[6] == 'r' && key_bookmarks()[7] == 'k' && key_bookmarks()[8] == 's');
    assert(forall|i: int|
        0 <= i < key_bookmarks().len() ==> crate::jsontext::spec_plain_char(
            #[trigger] key_bookmarks()[i],
        ));
    crate::jsontext::lemma_escape_plain(key_bookmarks());
    assert(after_brace.skip(1) =~= spec_escape(key_bookmarks()) + seq!['"'] + rtail);
    crate::jsontext::lemma_str_rest_escaped(key_bookmarks(), rtail);
    assert(spec_str_rest(after_brace.skip(1)) == Some((key_bookmarks(), rtail)));
    assert(rtail[0] == ':');
    assert(crate::jsontext::spec_skip_ws(rtail) == rtail);
    assert(rtail.skip(1) =~= arr);
    assert(arr[0] == '[');
    assert(crate::jsontext::spec_skip_ws(arr) == arr);
    lemma_parse_bm_array_encoded(m.bookmarks, closing);
    assert(closing[0] == '}');
    assert(crate::jsontext::spec_skip_ws(closing) == closing);
    assert(closing.skip(1) =~= rest);
    assert(ContextswitchDataView { bookmarks: m.bookmarks } == m);
    assert(spec_metadata_after_field(after_brace, Some(m.bookmarks), closing) == Some((m, rest)));
    assert(spec_metadata_fields(after_brace, None) == Some((m, rest)));
    assert(spec_parse_metadata_obj(s) == Some((m, rest)));
}

/// Round-trip law: encoding any metadata extension and then decoding the
/// resulting text yields exactly that value, bookmark for bookmark.
pub proof fn lemma_metadata_round_trip(m: ContextswitchDataView)
    ensures
        spec_decode_metadata(spec_encode_metadata(m)) == Some(m),
{
    let enc = spec_encode_metadata(m);
    assert(enc.len() >= 16);
    assert(enc != seq!['{', '}']) by {
        assert(seq!['{', '}'].len() == 2);
    }
    assert(enc[0] == '{');
    assert(crate::jsontext::spec_skip_ws(enc) == enc);
    lemma_parse_metadata_obj_encoded(m, Seq::empty());
    assert(enc + Seq::<char>::empty() =~= enc);
    assert(spec_parse_metadata_obj(enc) == Some((m, Seq::<char>::empty())));
    assert(crate::jsontext::spec_skip_ws(Seq::<char>::empty()).len() == 0);
    assert(spec_parse_metadata_text(enc) == Some(m));
}

/// Lenient-decode law: any raw text that does not read as the metadata
/// object decodes to absence, and a decoded value is exactly what the
/// object parser read — malformed user data never surfaces as an error on
/// the read path, since the decoder is total and has no error outcome.
pub proof fn lemma_lenient_decode(s: Seq<char>)
    ensures
        spec_parse_metadata_text(s) is None ==> spec_decode_metadata(s) is None,
        spec_decode_metadata(s) matches Some(mv) ==> spec_parse_metadata_text(s) == Some(mv),
{
}

/// Absence-normalization law: an absent raw field, the empty text and the
/// literal `{}` all decode to absence and are indistinguishable
/// afterwards.
pub proof fn lemma_absence_normalization()
    ensures
        spec_decode_metadata_field(None) is None,
        spec_decode_metadata(Seq::<char>::empty()) is None,
        spec_decode_metadata(seq!['{', '}']) is None,
{
}

/// Decodes the raw metadata field leniently: an absent, empty or `{}`
/// value stands for absence, and malformed text yields `None`, never an
/// error.
pub fn decode_metadata(raw: &Option<String>) -> (r: Option<ContextswitchData>)
    ensures
        match spec_decode_metadata_field(opt_view(*raw)) {
            Some(mv) => r matches Some(d) && d@ == mv,
            None => r is None,
        },
{
    match raw {
        None => None,
        Some(s) => {
            proof {
                reveal_strlit("{}");
                assert("{}"@ =~= seq!['{', '}']);
            }
            if s.as_str().unicode_len() == 0 {
                None
            } else if crate::task::streq(s.as_str(), "{}") {
                None
            } else {
                let cv = crate::chars::chars_of(s.as_str());
                parse_metadata_text(cv.as_slice())
            }
        },
    }
}

} // verus!
