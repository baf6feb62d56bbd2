//! The package an installer carries after its own executable bytes.
//!
//! Layout, read from the end of the file: the 24-byte magic
//! `COVENANT_SETUP_BUNDLE_V1`, before it the payload length as a
//! little-endian `u64`, and before that the payload itself: the index length
//! as a little-endian `u64`, the JSON index (application metadata and each
//! file's relative path and length), then every file's bytes in index order.
use vstd::prelude::*;
use vstd::bytes::{
    lemma_auto_spec_u64_to_from_le_bytes, spec_u64_from_le_bytes, spec_u64_to_le_bytes,
    u64_from_le_bytes, u64_to_le_bytes,
};
use crate::error::AppError;
use crate::paths::{file_name_chars, file_name_of, stem_chars, stem_of};
use crate::text::{
    append_chars, chars_of, decimal, decimal_chars, lower_chars, lower_seq, replace_all,
    replace_chars, string_of,
};

verus! {

/// The application a package installs, and the file name of its manifest
/// inside the package.
#[derive(Debug, Clone, PartialEq, Eq)]
pub struct PackagedApp {
    pub app_name: String,
    pub manifest: String,
}

/// One packaged file: its path relative to the package root and its bytes.
#[derive(Debug, Clone, PartialEq, Eq)]
pub struct EmbeddedFile {
    pub relative_path: String,
    pub data: Vec<u8>,
}

/// A whole package.
#[derive(Debug, Clone, PartialEq, Eq)]
pub struct EmbeddedBundle {
    pub metadata: PackagedApp,
    pub files: Vec<EmbeddedFile>,
}

/// One index entry: a packaged file's path and byte length.
#[derive(Debug, Clone, PartialEq, Eq)]
pub struct EmbeddedFileIndexEntry {
    pub relative_path: String,
    pub len: u64,
}

/// The index stored as JSON at the head of the payload.
#[derive(Debug, Clone, PartialEq, Eq)]
pub struct EmbeddedBundleIndex {
    pub metadata: PackagedApp,
    pub files: Vec<EmbeddedFileIndexEntry>,
}

/// Where the payload lies in the installer's bytes: `payload_start` to
/// `payload_end`, its 8-byte index length first, the JSON index up to
/// `data_start`, the file bytes after it.
#[derive(Debug, Clone, Copy, PartialEq, Eq)]
pub struct PayloadLayout {
    pub payload_start: usize,
    pub data_start: usize,
    pub payload_end: usize,
}

/// The bytes of an ASCII text, one per character.
pub open spec fn ascii(s: Seq<char>) -> Seq<u8> {
    s.map_values(|c: char| c as u8)
}

/// The magic that ends a packaged installer.
pub open spec fn embedded_magic() -> Seq<u8> {
    ascii("COVENANT_SETUP_BUNDLE_V1"@)
}

/// The bytes of a text, one per character (a character's low byte).
pub fn ascii_bytes(s: &str) -> (r: Vec<u8>)
    ensures
        r@ == ascii(s@),
{
    let v = chars_of(s);
    let mut r: Vec<u8> = Vec::new();
    let mut i: usize = 0;
    while i < v.len()
        invariant
            i <= v.len(),
            v@ == s@,
            r@ == ascii(v@.take(i as int)),
        decreases v.len() - i,
    {
        let c = v[i];
        r.push(c as u8);
        i = i + 1;
        assert(ascii(v@.take(i as int)) =~= ascii(v@.take(i - 1)).push(c as u8));
    }
    assert(v@.take(v.len() as int) == v@);
    r
}

/// The bytes from `from` to `to`.
pub fn sub_bytes(b: &[u8], from: usize, to: usize) -> (r: Vec<u8>)
    requires
        from <= to <= b@.len(),
    ensures
        r@ == b@.subrange(from as int, to as int),
{
    let mut r: Vec<u8> = Vec::new();
    let mut i: usize = from;
    while i < to
        invariant
            from <= i <= to <= b@.len(),
            r@ == b@.subrange(from as int, i as int),
        decreases to - i,
    {
        r.push(b[i]);
        i = i + 1;
        assert(r@ =~= b@.subrange(from as int, i as int));
    }
    r
}

/// Where the payload lies, or the text of the error that rejects the
/// footer; `Ok(None)` when the bytes end in no package at all.
pub open spec fn payload_layout_spec(b: Seq<u8>) -> Result<Option<(int, int, int)>, Seq<char>> {
    let m = embedded_magic();
    if b.len() < m.len() + 8 {
        Ok(None)
    } else if b.skip(b.len() - m.len()) != m {
        Ok(None)
    } else {
        let so = b.len() - m.len() - 8;
        let plen = (spec_u64_from_le_bytes(b.subrange(so, so + 8)) as usize) as int;
        if so < plen {
            Err("Embedded payload length exceeds executable size"@)
        } else if plen < 8 {
            Err("Embedded payload is too short"@)
        } else {
            let po = so - plen;
            let ilen = (spec_u64_from_le_bytes(b.subrange(po, po + 8)) as usize) as int;
            if 8 + ilen > usize::MAX {
                Err("Embedded index length overflow"@)
            } else if 8 + ilen > plen {
                Err("Embedded index length exceeds payload size"@)
            } else {
                Ok(Some((po, po + 8 + ilen, so)))
            }
        }
    }
}

/// Finds the package at the end of an installer's bytes.
pub fn locate_embedded_payload(bytes: &[u8]) -> (r: Result<Option<PayloadLayout>, AppError>)
    ensures
        match payload_layout_spec(bytes@) {
            Ok(None) => r == Ok::<Option<PayloadLayout>, AppError>(None),
            Ok(Some((po, ds, so))) => r matches Ok(Some(l)) && l.payload_start == po
                && l.data_start == ds && l.payload_end == so,
            Err(t) => r matches Err(AppError::Message(m)) && m@ == t,
        },
{
    let magic = ascii_bytes("COVENANT_SETUP_BUNDLE_V1");
    proof {
        reveal_strlit("COVENANT_SETUP_BUNDLE_V1");
    }
    assert(magic@.len() == 24);
    let n = bytes.len();
    if n < magic.len() + 8 {
        return Ok(None);
    }
    let mo = n - magic.len();
    let mut i: usize = 0;
    while i < magic.len()
        invariant
            i <= magic.len(),
            mo == bytes@.len() - magic@.len(),
            magic@.len() <= bytes@.len(),
            n == bytes@.len(),
            magic@ == embedded_magic(),
            forall|j: int| 0 <= j < i ==> bytes@[mo + j] == magic@[j],
        decreases magic.len() - i,
    {
        if bytes[mo + i] != magic[i] {
            assert(bytes@.skip(mo as int)[i as int] != magic@[i as int]);
            return Ok(None);
        }
        i = i + 1;
    }
    assert(bytes@.skip(mo as int) =~= magic@);
    let so = mo - 8;
    let size_bytes = sub_bytes(bytes, so, mo);
    let plen = #[verifier::truncate] (u64_from_le_bytes(size_bytes.as_slice()) as usize);
    if so < plen {
        return Err(AppError::Message("Embedded payload length exceeds executable size".to_owned()));
    }
    if plen < 8 {
        return Err(AppError::Message("Embedded payload is too short".to_owned()));
    }
    let po = so - plen;
    let index_bytes = sub_bytes(bytes, po, po + 8);
    let ilen = #[verifier::truncate] (u64_from_le_bytes(index_bytes.as_slice()) as usize);
    if ilen > usize::MAX - 8 {
        return Err(AppError::Message("Embedded index length overflow".to_owned()));
    }
    if 8 + ilen > plen {
        return Err(AppError::Message("Embedded index length exceeds payload size".to_owned()));
    }
    Ok(Some(PayloadLayout { payload_start: po, data_start: po + 8 + ilen, payload_end: so }))
}

/// The (path, length) value of each index entry.
pub open spec fn index_view(v: Seq<EmbeddedFileIndexEntry>) -> Seq<(Seq<char>, u64)> {
    v.map_values(|e: EmbeddedFileIndexEntry| (e.relative_path@, e.len))
}

/// The (path, bytes) value of each packaged file.
pub open spec fn files_view(v: Seq<EmbeddedFile>) -> Seq<(Seq<char>, Seq<u8>)> {
    v.map_values(|f: EmbeddedFile| (f.relative_path@, f.data@))
}

/// Cuts the files listed from `entries` on out of `payload`, starting at
/// `cursor`; each must fit in what is left, and nothing may be left after
/// the last.
pub open spec fn split_files_spec(
    payload: Seq<u8>,
    cursor: int,
    entries: Seq<(Seq<char>, u64)>,
) -> Result<Seq<(Seq<char>, Seq<u8>)>, Seq<char>>
    decreases entries.len(),
{
    if entries.len() == 0 {
        if cursor != payload.len() {
            Err("Embedded payload has trailing bytes after file data"@)
        } else {
            Ok(seq![])
        }
    } else {
        let (path, len) = entries[0];
        let end = cursor + (len as usize) as int;
        if end > usize::MAX {
            Err("Embedded file length overflow"@)
        } else if end > payload.len() {
            Err("Embedded file exceeds payload size: "@ + path)
        } else {
            match split_files_spec(payload, end, entries.skip(1)) {
                Ok(rest) => Ok(seq![(path, payload.subrange(cursor, end))] + rest),
                Err(t) => Err(t),
            }
        }
    }
}

/// `done` before the files of `r`, or `r`'s error.
pub open spec fn after_done(
    done: Seq<(Seq<char>, Seq<u8>)>,
    r: Result<Seq<(Seq<char>, Seq<u8>)>, Seq<char>>,
) -> Result<Seq<(Seq<char>, Seq<u8>)>, Seq<char>> {
    match r {
        Ok(rest) => Ok(done + rest),
        Err(t) => Err(t),
    }
}

/// Cuts the packaged files out of the installer's bytes, in index order,
/// once the index has been read from the layout's index bytes.
pub fn split_embedded_files(bytes: &[u8], layout: &PayloadLayout, index: EmbeddedBundleIndex) -> (r:
    Result<EmbeddedBundle, AppError>)
    requires
        layout.payload_start <= layout.data_start <= layout.payload_end <= bytes@.len(),
    ensures
        match split_files_spec(
            bytes@.subrange(layout.payload_start as int, layout.payload_end as int),
            layout.data_start - layout.payload_start,
            index_view(index.files@),
        ) {
            Ok(fs) => r matches Ok(b) && files_view(b.files@) == fs && b.metadata == index.metadata,
            Err(t) => r matches Err(AppError::Message(m)) && m@ == t,
        },
{
    let ghost payload = bytes@.subrange(layout.payload_start as int, layout.payload_end as int);
    let ghost entries = index_view(index.files@);
    let plen = layout.payload_end - layout.payload_start;
    let mut cursor: usize = layout.data_start - layout.payload_start;
    let mut files: Vec<EmbeddedFile> = Vec::new();
    let mut i: usize = 0;
    assert(entries.skip(0) == entries);
    assert(files_view(files@) =~= Seq::<(Seq<char>, Seq<u8>)>::empty());
    while i < index.files.len()
        invariant
            i <= index.files.len(),
            layout.payload_start <= layout.data_start <= layout.payload_end <= bytes@.len(),
            payload == bytes@.subrange(layout.payload_start as int, layout.payload_end as int),
            plen == payload.len(),
            entries == index_view(index.files@),
            cursor <= plen,
            split_files_spec(payload, layout.data_start - layout.payload_start, entries)
                == after_done(files_view(files@), split_files_spec(payload, cursor as int, entries.skip(i as int))),
        decreases index.files.len() - i,
    {
        let ghost rest = entries.skip(i as int);
        assert(rest[0] == entries[i as int]);
        assert(rest.skip(1) =~= entries.skip(i + 1));
        let entry = &index.files[i];
        let len = #[verifier::truncate] (entry.len as usize);
        if len > usize::MAX - cursor {
            return Err(AppError::Message("Embedded file length overflow".to_owned()));
        }
        let end = cursor + len;
        if end > plen {
            let mut m = chars_of("Embedded file exceeds payload size: ");
            let p = chars_of(entry.relative_path.as_str());
            append_chars(&mut m, &p);
            return Err(AppError::Message(string_of(m.as_slice())));
        }
        let data = sub_bytes(bytes, layout.payload_start + cursor, layout.payload_start + end);
        assert(data@ =~= payload.subrange(cursor as int, end as int));
        let ghost before = files_view(files@);
        files.push(EmbeddedFile { relative_path: entry.relative_path.clone(), data });
        assert(files_view(files@) =~= before.push((entry.relative_path@, data@)));
        proof {
            let tail = split_files_spec(payload, end as int, entries.skip(i + 1));
            match tail {
                Ok(t) => {
                    assert(before + (seq![(entry.relative_path@, data@)] + t) =~= files_view(files@)
                        + t);
                },
                Err(_) => {},
            }
        }
        cursor = end;
        i = i + 1;
    }
    assert(entries.skip(i as int) =~= Seq::<(Seq<char>, u64)>::empty());
    if cursor != plen {
        return Err(AppError::Message("Embedded payload has trailing bytes after file data".to_owned()));
    }
    assert(files_view(files@) + Seq::<(Seq<char>, Seq<u8>)>::empty() =~= files_view(files@));
    Ok(EmbeddedBundle { metadata: index.metadata, files })
}

/// Appends `b` to `a`.
pub fn append_bytes(a: &mut Vec<u8>, b: &[u8])
    ensures
        final(a)@ == old(a)@ + b@,
{
    let mut i: usize = 0;
    while i < b.len()
        invariant
            i <= b@.len(),
            a@ == old(a)@ + b@.take(i as int),
        decreases b@.len() - i,
    {
        a.push(b[i]);
        i = i + 1;
        assert(a@ =~= old(a)@ + b@.take(i as int));
    }
    assert(b@.take(b@.len() as int) == b@);
}

/// The bytes of the files, one after another.
pub open spec fn concat_data(files: Seq<(Seq<char>, Seq<u8>)>) -> Seq<u8>
    decreases files.len(),
{
    if files.len() == 0 {
        seq![]
    } else {
        files[0].1 + concat_data(files.skip(1))
    }
}

/// The index entries of the files: each path with its byte length.
pub open spec fn entries_of(files: Seq<(Seq<char>, Seq<u8>)>) -> Seq<(Seq<char>, u64)> {
    files.map_values(|f: (Seq<char>, Seq<u8>)| (f.0, f.1.len() as u64))
}

/// The payload: the index length, the index, the file bytes.
pub open spec fn payload_spec(index: Seq<u8>, files: Seq<(Seq<char>, Seq<u8>)>) -> Seq<u8> {
    spec_u64_to_le_bytes(index.len() as u64) + index + concat_data(files)
}

/// What packaging appends to the installer: the payload, its length, the
/// magic.
pub open spec fn trailer_spec(index: Seq<u8>, files: Seq<(Seq<char>, Seq<u8>)>) -> Seq<u8> {
    let p = payload_spec(index, files);
    p + spec_u64_to_le_bytes(p.len() as u64) + embedded_magic()
}

proof fn lemma_concat_data_split(a: Seq<(Seq<char>, Seq<u8>)>, b: Seq<(Seq<char>, Seq<u8>)>)
    ensures
        concat_data(a + b) == concat_data(a) + concat_data(b),
    decreases a.len(),
{
    if a.len() == 0 {
        assert(a + b =~= b);
        assert(concat_data(a) + concat_data(b) =~= concat_data(b));
    } else {
        lemma_concat_data_split(a.skip(1), b);
        assert((a + b).skip(1) =~= a.skip(1) + b);
        assert((a + b)[0] == a[0]);
        assert(a[0].1 + (concat_data(a.skip(1)) + concat_data(b)) =~= (a[0].1 + concat_data(
            a.skip(1),
        )) + concat_data(b));
    }
}

/// The index of a package: its metadata, and each file's path and length.
pub fn bundle_index(bundle: &EmbeddedBundle) -> (r: EmbeddedBundleIndex)
    ensures
        r.metadata == bundle.metadata,
        index_view(r.files@) == entries_of(files_view(bundle.files@)),
{
    let mut entries: Vec<EmbeddedFileIndexEntry> = Vec::new();
    let mut i: usize = 0;
    while i < bundle.files.len()
        invariant
            i <= bundle.files.len(),
            index_view(entries@) == entries_of(files_view(bundle.files@)).take(i as int),
            entries@.len() == i,
        decreases bundle.files.len() - i,
    {
        let f = &bundle.files[i];
        let path = f.relative_path.clone();
        let len = f.data.len() as u64;
        entries.push(EmbeddedFileIndexEntry { relative_path: path, len });
        i = i + 1;
        assert(files_view(bundle.files@)[i - 1] == (f.relative_path@, f.data@));
        assert(index_view(entries@)[i - 1] == (f.relative_path@, f.data@.len() as u64));
        assert(index_view(entries@) =~= entries_of(files_view(bundle.files@)).take(i as int));
    }
    assert(entries_of(files_view(bundle.files@)).take(i as int) =~= entries_of(
        files_view(bundle.files@),
    ));
    EmbeddedBundleIndex {
        metadata: PackagedApp {
            app_name: bundle.metadata.app_name.clone(),
            manifest: bundle.metadata.manifest.clone(),
        },
        files: entries,
    }
}

/// The bytes packaging appends to the installer, from the serialized index
/// and the files.
pub fn bundle_trailer(index_bytes: &[u8], files: &Vec<EmbeddedFile>) -> (r: Vec<u8>)
    requires
        index_bytes@.len() + concat_data(files_view(files@)).len() + 40 <= usize::MAX,
    ensures
        r@ == trailer_spec(index_bytes@, files_view(files@)),
{
    let ghost fv = files_view(files@);
    let mut out = u64_to_le_bytes(index_bytes.len() as u64);
    append_bytes(&mut out, index_bytes);
    let ghost head = out@;
    let mut i: usize = 0;
    assert(fv.take(0) =~= Seq::<(Seq<char>, Seq<u8>)>::empty());
    assert(head + concat_data(fv.take(0)) =~= head);
    while i < files.len()
        invariant
            i <= files.len(),
            fv == files_view(files@),
            head.len() == 8 + index_bytes@.len(),
            out@ == head + concat_data(fv.take(i as int)),
            index_bytes@.len() + concat_data(fv).len() + 40 <= usize::MAX,
        decreases files.len() - i,
    {
        proof {
            lemma_concat_data_split(fv.take(i as int), fv.skip(i as int));
            assert(fv.take(i as int) + fv.skip(i as int) =~= fv);
            lemma_concat_data_split(fv.take(i as int), seq![fv[i as int]]);
            assert(fv.take(i + 1) =~= fv.take(i as int) + seq![fv[i as int]]);
            assert(seq![fv[i as int]].skip(1) =~= Seq::<(Seq<char>, Seq<u8>)>::empty());
            assert(concat_data(Seq::<(Seq<char>, Seq<u8>)>::empty()) =~= Seq::<u8>::empty());
            assert(concat_data(seq![fv[i as int]]) == fv[i as int].1 + concat_data(
                seq![fv[i as int]].skip(1),
            ));
            assert(concat_data(seq![fv[i as int]]) =~= fv[i as int].1);
            assert(fv.skip(i as int)[0] == fv[i as int]);
        }
        append_bytes(&mut out, files[i].data.as_slice());
        i = i + 1;
        assert(out@ =~= head + concat_data(fv.take(i as int)));
    }
    assert(fv.take(i as int) =~= fv);
    let plen = out.len() as u64;
    let size = u64_to_le_bytes(plen);
    append_bytes(&mut out, size.as_slice());
    let magic = ascii_bytes("COVENANT_SETUP_BUNDLE_V1");
    append_bytes(&mut out, magic.as_slice());
    assert(out@ =~= trailer_spec(index_bytes@, fv));
    out
}

proof fn lemma_split_concat(pre: Seq<u8>, files: Seq<(Seq<char>, Seq<u8>)>)
    requires
        pre.len() + concat_data(files).len() <= usize::MAX,
    ensures
        split_files_spec(pre + concat_data(files), pre.len() as int, entries_of(files)) == Ok::<
            Seq<(Seq<char>, Seq<u8>)>,
            Seq<char>,
        >(files),
    decreases files.len(),
{
    let p = pre + concat_data(files);
    if files.len() == 0 {
        assert(p =~= pre);
        assert(entries_of(files) =~= Seq::<(Seq<char>, u64)>::empty());
        assert(files =~= Seq::<(Seq<char>, Seq<u8>)>::empty());
    } else {
        let f = files[0];
        let len = f.1.len();
        assert(concat_data(files) == f.1 + concat_data(files.skip(1)));
        assert(entries_of(files)[0] == (f.0, len as u64));
        assert((len as u64) as usize == len);
        let pre2 = pre + f.1;
        assert(p =~= pre2 + concat_data(files.skip(1)));
        lemma_split_concat(pre2, files.skip(1));
        assert(entries_of(files).skip(1) =~= entries_of(files.skip(1)));
        assert(p.subrange(pre.len() as int, pre.len() + len as int) =~= f.1);
        assert(seq![(f.0, f.1)] + files.skip(1) =~= files);
    }
}

/// Packaging then reading gives the package back: whatever the installer's
/// own bytes, its footer locates exactly the payload appended after them,
/// the index is found where it was written, and cutting the payload by the
/// index entries gives back every file, path and bytes, in order.
pub proof fn law_bundle_round_trip(
    stub: Seq<u8>,
    index: Seq<u8>,
    files: Seq<(Seq<char>, Seq<u8>)>,
)
    requires
        stub.len() + index.len() + concat_data(files).len() + 40 <= usize::MAX,
    ensures
        payload_layout_spec(stub + trailer_spec(index, files)) == Ok::<
            Option<(int, int, int)>,
            Seq<char>,
        >(
            Some(
                (
                    stub.len() as int,
                    (stub.len() + 8 + index.len()) as int,
                    (stub.len() + payload_spec(index, files).len()) as int,
                ),
            ),
        ),
        (stub + trailer_spec(index, files)).subrange(
            (stub.len() + 8) as int,
            (stub.len() + 8 + index.len()) as int,
        ) == index,
        split_files_spec(
            (stub + trailer_spec(index, files)).subrange(
                stub.len() as int,
                (stub.len() + payload_spec(index, files).len()) as int,
            ),
            (8 + index.len()) as int,
            entries_of(files),
        ) == Ok::<Seq<(Seq<char>, Seq<u8>)>, Seq<char>>(files),
{
    lemma_auto_spec_u64_to_from_le_bytes();
    reveal_strlit("COVENANT_SETUP_BUNDLE_V1");
    let m = embedded_magic();
    assert(m.len() == 24);
    let il = spec_u64_to_le_bytes(index.len() as u64);
    assert(il.len() == 8);
    let p = payload_spec(index, files);
    assert(p.len() == 8 + index.len() + concat_data(files).len());
    let pl = spec_u64_to_le_bytes(p.len() as u64);
    assert(pl.len() == 8);
    let b = stub + trailer_spec(index, files);
    assert(b =~= stub + p + pl + m);
    let so = (stub.len() + p.len()) as int;
    assert(b.skip(b.len() - m.len()) =~= m);
    assert(b.subrange(so, so + 8) =~= pl);
    assert(spec_u64_from_le_bytes(pl) == p.len() as u64);
    assert((p.len() as u64) as usize == p.len());
    let po = stub.len() as int;
    assert(b.subrange(po, po + 8) =~= il);
    assert(spec_u64_from_le_bytes(il) == index.len() as u64);
    assert((index.len() as u64) as usize == index.len());
    assert(b.subrange(po + 8, po + 8 + index.len()) =~= index);
    assert(b.subrange(po, so) =~= p);
    assert(p =~= (il + index) + concat_data(files));
    lemma_split_concat(il + index, files);
}

/// An appended bundle reads back as itself, and the installer's own bytes
/// stay in front of it: the footer locates the payload right after `stub`,
/// the index bytes are found where they were written, and once they are
/// read back as the index that was written (the metadata and entries of
/// `bundle_index` of the bundle), cutting the located payload by that index
/// gives the bundle's files, paths and bytes, in order; the metadata comes
/// from the index.
pub proof fn law_embedded_bundle_round_trip(
    stub: Seq<u8>,
    index_bytes: Seq<u8>,
    bundle: EmbeddedBundle,
    index: EmbeddedBundleIndex,
)
    requires
        index.metadata == bundle.metadata,
        index_view(index.files@) == entries_of(files_view(bundle.files@)),
        stub.len() + index_bytes.len() + concat_data(files_view(bundle.files@)).len() + 40
            <= usize::MAX,
    ensures
        ({
            let whole = stub + trailer_spec(index_bytes, files_view(bundle.files@));
            &&& whole.subrange(0, stub.len() as int) == stub
            &&& payload_layout_spec(whole) matches Ok(Some((po, ds, pe))) && po == stub.len()
                && whole.subrange(po + 8, ds) == index_bytes && split_files_spec(
                whole.subrange(po, pe),
                ds - po,
                index_view(index.files@),
            ) == Ok::<Seq<(Seq<char>, Seq<u8>)>, Seq<char>>(files_view(bundle.files@))
        }),
{
    let files = files_view(bundle.files@);
    law_bundle_round_trip(stub, index_bytes, files);
    let whole = stub + trailer_spec(index_bytes, files);
    assert(whole.subrange(0, stub.len() as int) =~= stub);
}

/// The file names packaging leaves out, whatever folder they are in: a
/// journal, and the installer and uninstaller it generates.
pub open spec fn excluded_from_bundle(relative_path: Seq<char>) -> bool {
    match file_name_of(relative_path) {
        None => false,
        Some(name) => {
            let l = lower_seq(name);
            l == "journal.json"@ || l == "covenant-setup-uninstall.exe"@ || l
                == "covenant-setup-installer.exe"@
        },
    }
}

/// Whether packaging leaves a file out; names compare without ASCII case.
pub fn should_exclude_from_bundle(relative_path: &str) -> (r: bool)
    ensures
        r == excluded_from_bundle(relative_path@),
{
    let p = chars_of(relative_path);
    match file_name_chars(&p) {
        None => false,
        Some(name) => {
            let l = lower_chars(&name);
            let a = chars_of("journal.json");
            let b = chars_of("covenant-setup-uninstall.exe");
            let c = chars_of("covenant-setup-installer.exe");
            same_chars(&l, &a) || same_chars(&l, &b) || same_chars(&l, &c)
        },
    }
}

/// Whether two character vectors hold the same characters.
pub fn same_chars(a: &Vec<char>, b: &Vec<char>) -> (r: bool)
    ensures
        r == (a@ == b@),
{
    if a.len() != b.len() {
        return false;
    }
    let mut i: usize = 0;
    while i < a.len()
        invariant
            i <= a.len(),
            a.len() == b.len(),
            forall|j: int| 0 <= j < i ==> a@[j] == b@[j],
        decreases a.len() - i,
    {
        if a[i] != b[i] {
            return false;
        }
        i = i + 1;
    }
    assert(a@ =~= b@);
    true
}

/// The folder, under the temporary `covenant-setup` folder, that a packaged
/// installer unpacks into: its file stem with spaces made underscores, a
/// hyphen, and the process id.
pub open spec fn extraction_dir_spec(exe_path: Seq<char>, pid: nat) -> Seq<char> {
    let stem = match file_name_of(exe_path) {
        Some(n) => stem_of(n),
        None => seq![],
    };
    replace_all(stem, " "@, "_"@) + "-"@ + decimal(pid)
}

/// The name of the folder a packaged installer unpacks into.
pub fn extraction_dir_name(exe_path: &str, pid: u32) -> (r: String)
    ensures
        r@ == extraction_dir_spec(exe_path@, pid as nat),
{
    let p = chars_of(exe_path);
    let stem = match file_name_chars(&p) {
        Some(n) => stem_chars(&n),
        None => Vec::new(),
    };
    let space = chars_of(" ");
    let under = chars_of("_");
    let mut out = replace_chars(&stem, &space, &under);
    out.push('-');
    let d = decimal_chars(pid as u128);
    append_chars(&mut out, &d);
    assert(out@ =~= extraction_dir_spec(exe_path@, pid as nat)) by {
        reveal_strlit("-");
    }
    string_of(out.as_slice())
}

} // verus!
