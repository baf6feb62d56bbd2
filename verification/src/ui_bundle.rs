//! The WinForms helper's files as the installer carries them.
//!
//! Format: the magic `COVENANT_SETUP_UI_BUNDLE_V1\n`, then records of a
//! little-endian `u32` path length, a little-endian `u64` data length, the
//! UTF-8 path and the data; a record with both lengths zero ends the bundle.
//! Paths are relative, with plain components only.
use vstd::prelude::*;
use vstd::bytes::{
    lemma_auto_spec_u32_to_from_le_bytes, lemma_auto_spec_u64_to_from_le_bytes,
    spec_u32_from_le_bytes, spec_u32_to_le_bytes, spec_u64_from_le_bytes, spec_u64_to_le_bytes,
    u32_from_le_bytes, u64_from_le_bytes,
};
use crate::bundle::{ascii, ascii_bytes, same_chars, sub_bytes};
use crate::error::AppError;
use crate::journal::opt_view;
use crate::paths::{
    has_drive, has_drive_chars, is_absolute, is_absolute_chars, is_sep, is_sep_char, join_chars,
    join_path, last_sep_before, last_sep_before_chars, lemma_last_sep_bounds,
};
use crate::text::{chars_of, slice_chars, string_of};
use vstd::utf8::{encode_utf8, encode_utf8_decode_utf8, encode_utf8_valid_utf8, valid_utf8};

verus! {

/// The text that UTF-8 bytes encode, or none when they are not UTF-8.
pub open spec fn utf8_text(bytes: Seq<u8>) -> Option<Seq<char>> {
    if valid_utf8(bytes) {
        Some(vstd::utf8::decode_utf8(bytes))
    } else {
        None
    }
}

/// `std::str::from_utf8`, owned: as std documents it, the bytes are
/// accepted exactly when they are valid UTF-8, and the text is what they
/// encode.
#[verifier::external_body]
fn text_from_utf8(bytes: &[u8]) -> (r: Option<String>)
    ensures
        r is Some <==> valid_utf8(bytes@),
        r matches Some(s) ==> s@ == vstd::utf8::decode_utf8(bytes@),
{
    match std::str::from_utf8(bytes) {
        Ok(s) => Some(s.to_owned()),
        Err(_) => None,
    }
}

/// The magic that opens a UI bundle.
pub open spec fn ui_magic() -> Seq<u8> {
    ascii("COVENANT_SETUP_UI_BUNDLE_V1\n"@)
}

/// The pieces of a path between its separators, empty ones included.
pub open spec fn pieces(p: Seq<char>) -> Seq<Seq<char>>
    decreases p.len(),
{
    let k = last_sep_before(p, 0, p.len() as int);
    if k < 0 || k >= p.len() {
        seq![p]
    } else {
        pieces(p.take(k)).push(p.skip(k + 1))
    }
}

/// The pieces that name something: not empty and not `.`.
pub open spec fn kept_pieces(ps: Seq<Seq<char>>) -> Seq<Seq<char>>
    decreases ps.len(),
{
    if ps.len() == 0 {
        seq![]
    } else {
        let rest = kept_pieces(ps.drop_last());
        let x = ps.last();
        if x.len() == 0 || x == seq!['.'] {
            rest
        } else {
            rest.push(x)
        }
    }
}

/// The components under which a bundled file is written, or the rejection
/// of its path: absolute paths, drive or root prefixes, a leading `.` and
/// any `..` are refused; empty and inner `.` pieces are dropped.
pub open spec fn ui_bundle_parts(rel: Seq<char>) -> Result<Seq<Seq<char>>, Seq<char>> {
    if is_absolute(rel) {
        Err("Embedded C# UI bundle contains an absolute path"@)
    } else if has_drive(rel) || (rel.len() > 0 && is_sep(rel[0])) {
        Err("Embedded C# UI bundle contains an unsafe path"@)
    } else {
        let ps = pieces(rel);
        if ps[0] == seq!['.'] || exists|i: int| 0 <= i < ps.len() && #[trigger] ps[i] == seq!['.', '.'] {
            Err("Embedded C# UI bundle contains an unsafe path"@)
        } else {
            Ok(kept_pieces(ps))
        }
    }
}

/// `root` with each part pushed in turn.
pub open spec fn join_all(root: Seq<char>, parts: Seq<Seq<char>>) -> Seq<char>
    decreases parts.len(),
{
    if parts.len() == 0 {
        root
    } else {
        join_path(join_all(root, parts.drop_last()), parts.last())
    }
}

/// The views of a list of character vectors.
pub open spec fn vv(v: Seq<Vec<char>>) -> Seq<Seq<char>> {
    v.map_values(|x: Vec<char>| x@)
}

fn pieces_chars(p: &Vec<char>) -> (r: Vec<Vec<char>>)
    ensures
        vv(r@) == pieces(p@),
    decreases p@.len(),
{
    match last_sep_before_chars(p, 0, p.len()) {
        None => {
            let mut r: Vec<Vec<char>> = Vec::new();
            r.push(p.clone());
            assert(vv(r@) =~= seq![p@]);
            r
        },
        Some(k) => {
            let head = slice_chars(p, 0, k);
            assert(head@ =~= p@.take(k as int));
            let mut r = pieces_chars(&head);
            let tail = slice_chars(p, k + 1, p.len());
            assert(tail@ =~= p@.skip(k + 1));
            let ghost before = vv(r@);
            r.push(tail);
            assert(vv(r@) =~= before.push(tail@));
            r
        },
    }
}

/// Where a bundled file is written below `root`, or why its path is refused.
pub fn bundle_output_path(root: &str, relative_path: &str) -> (r: Result<String, AppError>)
    ensures
        match ui_bundle_parts(relative_path@) {
            Ok(parts) => r matches Ok(o) && o@ == join_all(root@, parts),
            Err(t) => r matches Err(AppError::Message(m)) && m@ == t,
        },
{
    let rel = chars_of(relative_path);
    if is_absolute_chars(&rel) {
        return Err(AppError::Message("Embedded C# UI bundle contains an absolute path".to_owned()));
    }
    if has_drive_chars(&rel) || (rel.len() > 0 && is_sep_char(rel[0])) {
        return Err(AppError::Message("Embedded C# UI bundle contains an unsafe path".to_owned()));
    }
    let ps = pieces_chars(&rel);
    let ghost psv = vv(ps@);
    assert(psv.len() >= 1) by {
        lemma_pieces_nonempty(rel@);
    }
    let dot = chars_of(".");
    let dotdot = chars_of("..");
    proof {
        reveal_strlit(".");
        reveal_strlit("..");
    }
    assert(dot@ =~= seq!['.']);
    assert(dotdot@ =~= seq!['.', '.']);
    if same_chars(&ps[0], &dot) {
        return Err(AppError::Message("Embedded C# UI bundle contains an unsafe path".to_owned()));
    }
    let mut i: usize = 0;
    while i < ps.len()
        invariant
            i <= ps@.len(),
            psv == vv(ps@),
            dotdot@ == seq!['.', '.'],
            rel@ == relative_path@,
            psv == pieces(rel@),
            !is_absolute(rel@),
            !(has_drive(rel@) || (rel@.len() > 0 && is_sep(rel@[0]))),
            forall|j: int| 0 <= j < i ==> psv[j] != seq!['.', '.'],
        decreases ps.len() - i,
    {
        if same_chars(&ps[i], &dotdot) {
            assert(psv[i as int] == seq!['.', '.']);
            assert(pieces(rel@)[i as int] == seq!['.', '.']);
            return Err(AppError::Message("Embedded C# UI bundle contains an unsafe path".to_owned()));
        }
        i = i + 1;
    }
    assert(!exists|j: int| 0 <= j < psv.len() && #[trigger] psv[j] == seq!['.', '.']);
    let mut out = chars_of(root);
    let mut kept: Vec<Vec<char>> = Vec::new();
    let mut i: usize = 0;
    assert(psv.take(0) =~= Seq::<Seq<char>>::empty());
    assert(vv(kept@) =~= Seq::<Seq<char>>::empty());
    while i < ps.len()
        invariant
            i <= ps@.len(),
            psv == vv(ps@),
            dot@ == seq!['.'],
            vv(kept@) == kept_pieces(psv.take(i as int)),
            out@ == join_all(root@, vv(kept@)),
        decreases ps.len() - i,
    {
        let piece = &ps[i];
        assert(psv.take(i + 1).drop_last() =~= psv.take(i as int));
        assert(psv.take(i + 1).last() == piece@);
        if piece.len() == 0 || same_chars(piece, &dot) {
        } else {
            let ghost kv = vv(kept@);
            out = join_chars(&out, piece);
            kept.push(piece.clone());
            assert(vv(kept@) =~= kv.push(piece@));
            assert(vv(kept@).drop_last() =~= kv);
        }
        i = i + 1;
    }
    assert(psv.take(ps.len() as int) =~= psv);
    Ok(string_of(out.as_slice()))
}

proof fn lemma_pieces_nonempty(p: Seq<char>)
    ensures
        pieces(p).len() >= 1,
    decreases p.len(),
{
    let k = last_sep_before(p, 0, p.len() as int);
    if k >= 0 && k < p.len() {
        lemma_pieces_nonempty(p.take(k));
    }
}

/// The files of the records from `cursor` on, in order, and the error that
/// stops the reading, if one does before the terminating record. A file is
/// only listed once its whole record is read and its path accepted.
pub open spec fn ui_records_spec(b: Seq<u8>, cursor: int) -> (
    Seq<(Seq<char>, Seq<u8>)>,
    Option<Seq<char>>,
)
    decreases b.len() - cursor,
{
    let ended = Some("Embedded C# UI bundle ended unexpectedly"@);
    if cursor < 0 || cursor + 12 > b.len() {
        (seq![], ended)
    } else {
        let plen = spec_u32_from_le_bytes(b.subrange(cursor, cursor + 4)) as int;
        let dlen = spec_u64_from_le_bytes(b.subrange(cursor + 4, cursor + 12)) as int;
        if dlen > usize::MAX {
            (seq![], Some("Embedded C# UI file is too large"@))
        } else if plen == 0 {
            if dlen != 0 {
                (seq![], Some("Embedded C# UI bundle has an invalid terminator"@))
            } else {
                (seq![], None)
            }
        } else if cursor + 12 + plen > b.len() {
            (seq![], ended)
        } else {
            let c2 = cursor + 12 + plen;
            match utf8_text(b.subrange(cursor + 12, c2)) {
                None => (seq![], Some("Embedded C# UI bundle path is not valid UTF-8"@)),
                Some(path) => if c2 + dlen > b.len() {
                    (seq![], ended)
                } else {
                    match ui_bundle_parts(path) {
                        Err(t) => (seq![], Some(t)),
                        Ok(_) => {
                            let (rest, err) = ui_records_spec(b, c2 + dlen);
                            (seq![(path, b.subrange(c2, c2 + dlen))] + rest, err)
                        },
                    }
                },
            }
        }
    }
}

/// A whole UI bundle: refused when the magic is missing; otherwise the
/// files of its records and the error that stopped the reading, if any.
pub open spec fn ui_bundle_spec(b: Seq<u8>) -> Result<
    (Seq<(Seq<char>, Seq<u8>)>, Option<Seq<char>>),
    Seq<char>,
> {
    let m = ui_magic();
    if b.len() < m.len() || b.take(m.len() as int) != m {
        Err("Embedded C# UI bundle is invalid"@)
    } else {
        Ok(ui_records_spec(b, m.len() as int))
    }
}

/// The files read from a UI bundle, in order, and the error that stopped
/// the reading before the terminating record, if any. Each listed file has
/// an accepted path; they are written out before the error is reported.
#[derive(Debug, Clone, PartialEq, Eq)]
pub struct UiBundleContents {
    pub files: Vec<crate::bundle::EmbeddedFile>,
    pub error: Option<AppError>,
}

fn contents(
    files: Vec<crate::bundle::EmbeddedFile>,
    error: &str,
) -> (r: Result<UiBundleContents, AppError>)
    ensures
        r matches Ok(c) && c.files@ == files@ && (c.error matches Some(AppError::Message(m)) && m@
            == error@),
{
    Ok(UiBundleContents { files, error: Some(AppError::Message(error.to_owned())) })
}

/// Reads a UI bundle.
pub fn parse_ui_bundle(bytes: &[u8]) -> (r: Result<UiBundleContents, AppError>)
    ensures
        match ui_bundle_spec(bytes@) {
            Err(t) => r matches Err(AppError::Message(m)) && m@ == t,
            Ok((files, err)) => r matches Ok(c) && crate::bundle::files_view(c.files@) == files
                && match err {
                None => c.error is None,
                Some(t) => (c.error matches Some(AppError::Message(m)) && m@ == t),
            },
        },
{
    let magic = ascii_bytes("COVENANT_SETUP_UI_BUNDLE_V1\n");
    let n = bytes.len();
    if n < magic.len() {
        return Err(AppError::Message("Embedded C# UI bundle is invalid".to_owned()));
    }
    let mut i: usize = 0;
    while i < magic.len()
        invariant
            i <= magic.len() <= bytes@.len(),
            magic@ == ui_magic(),
            forall|j: int| 0 <= j < i ==> bytes@[j] == magic@[j],
        decreases magic.len() - i,
    {
        if bytes[i] != magic[i] {
            assert(bytes@.take(magic@.len() as int)[i as int] != magic@[i as int]);
            return Err(AppError::Message("Embedded C# UI bundle is invalid".to_owned()));
        }
        i = i + 1;
    }
    assert(bytes@.take(magic@.len() as int) =~= magic@);
    let ghost total = ui_records_spec(bytes@, magic@.len() as int);
    let mut files: Vec<crate::bundle::EmbeddedFile> = Vec::new();
    let mut cursor: usize = magic.len();
    assert(crate::bundle::files_view(files@) =~= Seq::<(Seq<char>, Seq<u8>)>::empty());
    assert(total.0 =~= crate::bundle::files_view(files@) + ui_records_spec(bytes@, cursor as int).0);
    loop
        invariant
            cursor <= bytes@.len(),
            n == bytes@.len(),
            total == ui_records_spec(bytes@, magic@.len() as int),
            total.0 == crate::bundle::files_view(files@) + ui_records_spec(bytes@, cursor as int).0,
            total.1 == ui_records_spec(bytes@, cursor as int).1,
            ui_bundle_spec(bytes@) == Ok::<
                (Seq<(Seq<char>, Seq<u8>)>, Option<Seq<char>>),
                Seq<char>,
            >(total),
        decreases bytes@.len() - cursor,
    {
        let ghost fv = crate::bundle::files_view(files@);
        if n - cursor < 12 {
            assert(total.0 =~= fv);
            return contents(files, "Embedded C# UI bundle ended unexpectedly");
        }
        let pl = sub_bytes(bytes, cursor, cursor + 4);
        let dl = sub_bytes(bytes, cursor + 4, cursor + 12);
        let plen = u32_from_le_bytes(pl.as_slice());
        let dlen64 = u64_from_le_bytes(dl.as_slice());
        if dlen64 as u128 > usize::MAX as u128 {
            assert(total.0 =~= fv);
            return contents(files, "Embedded C# UI file is too large");
        }
        let dlen = dlen64 as usize;
        if plen == 0 {
            if dlen != 0 {
                assert(total.0 =~= fv);
                return contents(files, "Embedded C# UI bundle has an invalid terminator");
            }
            assert(total.0 =~= fv);
            return Ok(UiBundleContents { files, error: None });
        }
        let c1 = cursor + 12;
        if plen as usize > n - c1 {
            assert(total.0 =~= fv);
            return contents(files, "Embedded C# UI bundle ended unexpectedly");
        }
        let c2 = c1 + plen as usize;
        let path_bytes = sub_bytes(bytes, c1, c2);
        let path = match text_from_utf8(path_bytes.as_slice()) {
            None => {
                assert(total.0 =~= fv);
                return contents(files, "Embedded C# UI bundle path is not valid UTF-8");
            },
            Some(p) => p,
        };
        if dlen > n - c2 {
            assert(total.0 =~= fv);
            return contents(files, "Embedded C# UI bundle ended unexpectedly");
        }
        let end = c2 + dlen;
        match bundle_output_path("", path.as_str()) {
            Err(e) => {
                assert(total.0 =~= fv);
                return Ok(UiBundleContents { files, error: Some(e) });
            },
            Ok(_) => {},
        }
        let data = sub_bytes(bytes, c2, end);
        let ghost rest = ui_records_spec(bytes@, end as int);
        assert(ui_records_spec(bytes@, cursor as int).0 == seq![(path@, data@)] + rest.0);
        files.push(crate::bundle::EmbeddedFile { relative_path: path, data });
        assert(crate::bundle::files_view(files@) =~= fv.push((path@, data@)));
        assert(total.0 =~= crate::bundle::files_view(files@) + rest.0);
        cursor = end;
    }
}

/// One record as a bundle writer frames it: the path length, the data
/// length, the path bytes, the data.
pub open spec fn ui_record_bytes(path_bytes: Seq<u8>, data: Seq<u8>) -> Seq<u8> {
    spec_u32_to_le_bytes(path_bytes.len() as u32) + spec_u64_to_le_bytes(data.len() as u64)
        + path_bytes + data
}

/// The records for (path bytes, path, data) triples, in order.
pub open spec fn ui_records_bytes(recs: Seq<(Seq<u8>, Seq<char>, Seq<u8>)>) -> Seq<u8>
    decreases recs.len(),
{
    if recs.len() == 0 {
        seq![]
    } else {
        ui_record_bytes(recs[0].0, recs[0].2) + ui_records_bytes(recs.skip(1))
    }
}

/// A whole bundle as a writer frames it: magic, records, terminator.
pub open spec fn ui_bundle_bytes(recs: Seq<(Seq<u8>, Seq<char>, Seq<u8>)>) -> Seq<u8> {
    ui_magic() + ui_records_bytes(recs) + spec_u32_to_le_bytes(0) + spec_u64_to_le_bytes(0)
}

/// The (path, data) files of the triples.
pub open spec fn ui_files_of(recs: Seq<(Seq<u8>, Seq<char>, Seq<u8>)>) -> Seq<(Seq<char>, Seq<u8>)> {
    recs.map_values(|r: (Seq<u8>, Seq<char>, Seq<u8>)| (r.1, r.2))
}

/// Each triple's path bytes are the UTF-8 of its path, not empty and
/// countable in a `u32`, and its path is accepted.
pub open spec fn ui_records_valid(recs: Seq<(Seq<u8>, Seq<char>, Seq<u8>)>) -> bool {
    forall|i: int|
        0 <= i < recs.len() ==> {
            &&& (#[trigger] recs[i]).0 == encode_utf8(recs[i].1)
            &&& 0 < recs[i].0.len() <= u32::MAX
            &&& ui_bundle_parts(recs[i].1) is Ok
        }
}

proof fn lemma_ui_records_read_back(pre: Seq<u8>, recs: Seq<(Seq<u8>, Seq<char>, Seq<u8>)>)
    requires
        ui_records_valid(recs),
        pre.len() + ui_records_bytes(recs).len() + 12 <= usize::MAX,
    ensures
        ui_records_spec(
            pre + ui_records_bytes(recs) + spec_u32_to_le_bytes(0) + spec_u64_to_le_bytes(0),
            pre.len() as int,
        ) == (ui_files_of(recs), None::<Seq<char>>),
    decreases recs.len(),
{
    lemma_auto_spec_u32_to_from_le_bytes();
    lemma_auto_spec_u64_to_from_le_bytes();
    let t4 = spec_u32_to_le_bytes(0);
    let t8 = spec_u64_to_le_bytes(0);
    assert(t4.len() == 4 && t8.len() == 8);
    let b = pre + ui_records_bytes(recs) + t4 + t8;
    let c = pre.len() as int;
    if recs.len() == 0 {
        assert(ui_records_bytes(recs) =~= Seq::<u8>::empty());
        assert(b.subrange(c, c + 4) =~= t4);
        assert(b.subrange(c + 4, c + 12) =~= t8);
        assert(spec_u32_from_le_bytes(t4) == 0);
        assert(spec_u64_from_le_bytes(t8) == 0);
        assert(ui_files_of(recs) =~= Seq::<(Seq<char>, Seq<u8>)>::empty());
    } else {
        let r = recs[0];
        let pb = r.0;
        let data = r.2;
        let l4 = spec_u32_to_le_bytes(pb.len() as u32);
        let l8 = spec_u64_to_le_bytes(data.len() as u64);
        assert(l4.len() == 4 && l8.len() == 8);
        let rest = ui_records_bytes(recs.skip(1));
        assert(ui_records_bytes(recs) == ui_record_bytes(pb, data) + rest);
        assert(ui_records_valid(recs.skip(1))) by {
            assert forall|i: int| 0 <= i < recs.skip(1).len() implies {
                &&& (#[trigger] recs.skip(1)[i]).0 == encode_utf8(recs.skip(1)[i].1)
                &&& 0 < recs.skip(1)[i].0.len() <= u32::MAX
                &&& ui_bundle_parts(recs.skip(1)[i].1) is Ok
            } by {
                assert(recs.skip(1)[i] == recs[i + 1]);
            }
        }
        encode_utf8_valid_utf8(recs[0].1);
        encode_utf8_decode_utf8(recs[0].1);
        assert(utf8_text(recs[0].0) == Some(recs[0].1));
        let pre2 = pre + ui_record_bytes(pb, data);
        assert(b =~= pre2 + rest + t4 + t8);
        lemma_ui_records_read_back(pre2, recs.skip(1));
        assert(b.subrange(c, c + 4) =~= l4);
        assert(b.subrange(c + 4, c + 12) =~= l8);
        assert(spec_u32_from_le_bytes(l4) == pb.len() as u32);
        assert(spec_u64_from_le_bytes(l8) == data.len() as u64);
        let c2 = c + 12 + pb.len();
        assert(b.subrange(c + 12, c2) =~= pb);
        assert(b.subrange(c2, c2 + data.len()) =~= data);
        assert(pre2.len() == c2 + data.len());
        assert(ui_files_of(recs) =~= seq![(r.1, data)] + ui_files_of(recs.skip(1)));
    }
}

/// A plain path component: not empty, not `.` or `..`, and free of
/// separators.
pub open spec fn plain_component(x: Seq<char>) -> bool {
    &&& x.len() > 0
    &&& x != seq!['.']
    &&& x != seq!['.', '.']
    &&& forall|i: int| 0 <= i < x.len() ==> !is_sep(#[trigger] x[i])
}

proof fn lemma_no_sep_after_last(p: Seq<char>, from: int, end: int)
    requires
        0 <= from <= end <= p.len(),
    ensures
        forall|i: int|
            from <= i < end && last_sep_before(p, from, end) < i ==> !is_sep(#[trigger] p[i]),
    decreases end - from,
{
    if end > from && !is_sep(p[end - 1]) {
        lemma_no_sep_after_last(p, from, end - 1);
    }
}

proof fn lemma_pieces_have_no_sep(p: Seq<char>)
    ensures
        forall|j: int, i: int|
            0 <= j < pieces(p).len() && 0 <= i < pieces(p)[j].len() ==> !is_sep(
                #[trigger] pieces(p)[j][i],
            ),
    decreases p.len(),
{
    let k = last_sep_before(p, 0, p.len() as int);
    lemma_last_sep_bounds(p, 0, p.len() as int);
    lemma_no_sep_after_last(p, 0, p.len() as int);
    if k < 0 || k >= p.len() {
        assert(pieces(p) == seq![p]);
        assert forall|j: int, i: int|
            0 <= j < pieces(p).len() && 0 <= i < pieces(p)[j].len() implies !is_sep(
            #[trigger] pieces(p)[j][i],
        ) by {
            assert(pieces(p)[j] == p);
        }
    } else {
        lemma_pieces_have_no_sep(p.take(k));
        let tail = p.skip(k + 1);
        assert forall|j: int, i: int|
            0 <= j < pieces(p).len() && 0 <= i < pieces(p)[j].len() implies !is_sep(
            #[trigger] pieces(p)[j][i],
        ) by {
            if j == pieces(p).len() - 1 {
                assert(pieces(p)[j] == tail);
                assert(tail[i] == p[k + 1 + i]);
            } else {
                assert(pieces(p)[j] == pieces(p.take(k))[j]);
            }
        }
    }
}

proof fn lemma_kept_pieces_plain(ps: Seq<Seq<char>>)
    requires
        forall|j: int| 0 <= j < ps.len() ==> #[trigger] ps[j] != seq!['.', '.'],
        forall|j: int, i: int|
            0 <= j < ps.len() && 0 <= i < ps[j].len() ==> !is_sep(#[trigger] ps[j][i]),
    ensures
        forall|j: int| 0 <= j < kept_pieces(ps).len() ==> plain_component(#[trigger] kept_pieces(ps)[j]),
    decreases ps.len(),
{
    if ps.len() > 0 {
        let init = ps.drop_last();
        assert forall|j: int, i: int|
            0 <= j < init.len() && 0 <= i < init[j].len() implies !is_sep(#[trigger] init[j][i]) by {
            assert(init[j] == ps[j]);
        }
        assert forall|j: int| 0 <= j < init.len() implies #[trigger] init[j] != seq!['.', '.'] by {
            assert(init[j] == ps[j]);
        }
        lemma_kept_pieces_plain(init);
        let x = ps.last();
        assert(x == ps[ps.len() - 1]);
        assert forall|i: int| 0 <= i < x.len() implies !is_sep(#[trigger] x[i]) by {
            assert(x[i] == ps[ps.len() - 1][i]);
        }
        let rest = kept_pieces(init);
        if !(x.len() == 0 || x == seq!['.']) {
            assert(kept_pieces(ps) == rest.push(x));
            assert(plain_component(x));
            assert forall|j: int| 0 <= j < kept_pieces(ps).len() implies plain_component(
                #[trigger] kept_pieces(ps)[j],
            ) by {
                if j < rest.len() {
                    assert(kept_pieces(ps)[j] == rest[j]);
                }
            }
        }
    }
}

/// A file of a UI bundle is only ever written below the extraction folder:
/// every component that an accepted path contributes is a plain name, not
/// empty, not `.` or `..`, and free of separators.
pub proof fn law_ui_bundle_parts_are_plain(rel: Seq<char>)
    ensures
        ui_bundle_parts(rel) matches Ok(parts) ==> forall|j: int|
            0 <= j < parts.len() ==> plain_component(#[trigger] parts[j]),
{
    if !is_absolute(rel) && !(has_drive(rel) || (rel.len() > 0 && is_sep(rel[0]))) {
        let ps = pieces(rel);
        lemma_pieces_have_no_sep(rel);
        if !(ps[0] == seq!['.'] || exists|i: int| 0 <= i < ps.len() && #[trigger] ps[i] == seq!['.', '.']) {
            lemma_kept_pieces_plain(ps);
        }
    }
}

/// Reading a bundle framed as the bundle writer frames it gives back every
/// file, path and data, in order, with nothing refused.
pub proof fn law_ui_bundle_round_trip(recs: Seq<(Seq<u8>, Seq<char>, Seq<u8>)>)
    requires
        ui_records_valid(recs),
        ui_records_bytes(recs).len() + 40 <= usize::MAX,
    ensures
        ui_bundle_spec(ui_bundle_bytes(recs)) == Ok::<
            (Seq<(Seq<char>, Seq<u8>)>, Option<Seq<char>>),
            Seq<char>,
        >((ui_files_of(recs), None)),
{
    reveal_strlit("COVENANT_SETUP_UI_BUNDLE_V1\n");
    let m = ui_magic();
    assert(m.len() == 28);
    let b = ui_bundle_bytes(recs);
    assert(b.take(m.len() as int) =~= m);
    lemma_ui_records_read_back(m, recs);
}

} // verus!
