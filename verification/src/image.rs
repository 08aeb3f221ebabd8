//! Pasted images: their PNG encoding, the names of the temporary files that
//! hold them, and which files may be cleaned up.
use vstd::prelude::*;
use crate::text::{concat, decimal, u64_to_decimal};

verus! {

broadcast use vstd::std_specs::vec::group_vec_axioms;

/// Why the `png` crate refused to encode an image: at the header, or at the
/// image data, with the crate's message.
pub enum PngFailure {
    Header(String),
    Data(String),
}

/// The bytes of the PNG file the `png` crate writes for 8-bit RGBA pixels
/// of this size, with its default settings.
pub uninterp spec fn png_rgba_file(rgba: Seq<u8>, width: u32, height: u32) -> Seq<u8>;

pub open spec fn refused_at_header(r: Result<Vec<u8>, PngFailure>, msg: Seq<char>) -> bool {
    r matches Err(PngFailure::Header(m)) && m@ == msg
}

pub open spec fn refused_at_data(r: Result<Vec<u8>, PngFailure>, msg: Seq<char>) -> bool {
    r matches Err(PngFailure::Data(m)) && m@ == msg
}

pub open spec fn encoded_as(r: Result<Vec<u8>, PngFailure>, bytes: Seq<u8>) -> bool {
    r matches Ok(b) && b@ == bytes
}

/// The crate's message for pixel data of the wrong length.
pub open spec fn size_message(width: u32, height: u32, len: nat) -> Seq<char> {
    "wrong data size, expected "@ + decimal(rgba_len(width, height) as nat) + " got "@ + decimal(len)
}

/// The number of bytes of `width` by `height` RGBA pixels.
pub open spec fn rgba_len(width: u32, height: u32) -> int {
    width as int * 4 * height as int
}

/// `png::Encoder::new` over a byte vector, `set_color(ColorType::Rgba)`,
/// `set_depth(BitDepth::Eight)`, `write_header`, then
/// `Writer::write_image_data` and the end chunk the writer adds when it is
/// dropped.
/// Trusted, from the crate's source: a zero width or height is refused at
/// the header, pixel data of the wrong length at the image data (with the
/// messages stated here), and anything else is encoded; the bytes are named
/// by `png_rgba_file`. The size must fit in `usize`, where the crate
/// computes it.
#[verifier::external_body]
fn png_encode_rgba(rgba: &Vec<u8>, width: u32, height: u32) -> (r: Result<Vec<u8>, PngFailure>)
    requires
        rgba_len(width, height) <= usize::MAX,
    ensures
        width == 0 ==> refused_at_header(r, "Zero width not allowed"@),
        width != 0 && height == 0 ==> refused_at_header(r, "Zero height not allowed"@),
        width != 0 && height != 0 && rgba@.len() != rgba_len(width, height) ==> refused_at_data(r, size_message(width, height, rgba@.len())),
        width != 0 && height != 0 && rgba@.len() == rgba_len(width, height) ==> encoded_as(r, png_rgba_file(rgba@, width, height)),
{
    let mut out: Vec<u8> = Vec::new();
    {
        let mut encoder = png::Encoder::new(&mut out, width, height);
        encoder.set_color(png::ColorType::Rgba);
        encoder.set_depth(png::BitDepth::Eight);
        let mut writer = encoder.write_header().map_err(|e| PngFailure::Header(e.to_string()))?;
        writer.write_image_data(rgba).map_err(|e| PngFailure::Data(e.to_string()))?;
    }
    Ok(out)
}

/// The error a refused image is reported with.
pub open spec fn png_error_message(width: u32, height: u32, len: nat) -> Seq<char> {
    if width == 0 {
        "Failed to write PNG header: "@ + "Zero width not allowed"@
    } else if height == 0 {
        "Failed to write PNG header: "@ + "Zero height not allowed"@
    } else {
        "Failed to write PNG data: "@ + size_message(width, height, len)
    }
}

/// Encodes a pasted RGBA image as PNG: the encoding when the pixel data
/// fits the size, else the error `png_error_message` describes.
pub fn encode_rgba_png(rgba_data: &Vec<u8>, width: u32, height: u32) -> (r: Result<Vec<u8>, String>)
    requires
        rgba_len(width, height) <= usize::MAX,
    ensures
        width != 0 && height != 0 && rgba_data@.len() == rgba_len(width, height) ==> (r matches Ok(b) && b@
            == png_rgba_file(rgba_data@, width, height)),
        !(width != 0 && height != 0 && rgba_data@.len() == rgba_len(width, height)) ==> (r matches Err(e) && e@
            == png_error_message(width, height, rgba_data@.len())),
{
    match png_encode_rgba(rgba_data, width, height) {
        Ok(b) => Ok(b),
        Err(PngFailure::Header(m)) => Err(concat("Failed to write PNG header: ", m.as_str())),
        Err(PngFailure::Data(m)) => Err(concat("Failed to write PNG data: ", m.as_str())),
    }
}

/// The name of the temporary file for an image pasted at `timestamp`.
pub fn temp_image_name(timestamp: &str) -> (r: String)
    ensures
        r@ == "clipboard_"@ + timestamp@ + ".png"@,
{
    let a = concat("clipboard_", timestamp);
    concat(a.as_str(), ".png")
}

/// A path separator: `/`, and on Windows also `\`.
pub open spec fn is_sep(c: char, windows: bool) -> bool {
    c == '/' || (windows && c == '\\')
}

/// The pieces of a path between separators.
pub open spec fn path_pieces(p: Seq<char>, windows: bool) -> Seq<Seq<char>>
    decreases p.len(),
{
    if p.len() == 0 {
        seq![seq![]]
    } else {
        let r = path_pieces(p.drop_last(), windows);
        if is_sep(p.last(), windows) {
            r.push(seq![])
        } else {
            r.update(r.len() - 1, r.last().push(p.last()))
        }
    }
}

/// The components of a path as `Path::components` yields them, after the
/// root: empty pieces (repeated or trailing separators) are dropped, and so
/// is `.` except as the very first piece.
pub open spec fn components_of(pieces: Seq<Seq<char>>) -> Seq<Seq<char>>
    decreases pieces.len(),
{
    if pieces.len() == 0 {
        seq![]
    } else {
        let rest = components_of(pieces.drop_last());
        let x = pieces.last();
        if x.len() == 0 || (x == seq!['.'] && pieces.len() > 1) {
            rest
        } else {
            rest.push(x)
        }
    }
}

/// Whether the path starts at the root.
pub open spec fn is_rooted(p: Seq<char>, windows: bool) -> bool {
    p.len() > 0 && is_sep(p[0], windows)
}

/// The components left once `.` and `..` are resolved by name, one step up
/// per `..`; `None` when a `..` would climb above the start of the path.
pub open spec fn resolve_dots(c: Seq<Seq<char>>) -> Option<Seq<Seq<char>>>
    decreases c.len(),
{
    if c.len() == 0 {
        Some(seq![])
    } else {
        match resolve_dots(c.drop_last()) {
            None => None,
            Some(st) => {
                let x = c.last();
                if x == seq!['.', '.'] {
                    if st.len() == 0 {
                        None
                    } else {
                        Some(st.drop_last())
                    }
                } else if x == seq!['.'] {
                    Some(st)
                } else {
                    Some(st.push(x))
                }
            },
        }
    }
}

/// The resolved components of a path.
pub open spec fn resolved_components(p: Seq<char>, windows: bool) -> Option<Seq<Seq<char>>> {
    resolve_dots(components_of(path_pieces(p, windows)))
}

/// `b` is the start of `a`.
pub open spec fn seq_prefix(a: Seq<Seq<char>>, b: Seq<Seq<char>>) -> bool {
    b.len() <= a.len() && a.take(b.len() as int) == b
}

/// `Path::starts_with`: both paths rooted or neither, and the components of
/// `base`, as written, are the first components of `path`.
pub open spec fn path_starts_with(path: Seq<char>, base: Seq<char>, windows: bool) -> bool {
    is_rooted(path, windows) == is_rooted(base, windows) && seq_prefix(
        components_of(path_pieces(path, windows)),
        components_of(path_pieces(base, windows)),
    )
}

/// Whether `path` lies under `base`: it starts with `base` component by
/// component (`Path::starts_with`), and it still does once `.` and `..` are
/// resolved in both, neither climbing above its start.
pub open spec fn path_under(path: Seq<char>, base: Seq<char>, windows: bool) -> bool {
    path_starts_with(path, base, windows) && match (
        resolved_components(path, windows),
        resolved_components(base, windows),
    ) {
        (Some(a), Some(b)) => seq_prefix(a, b),
        _ => false,
    }
}

fn pieces_exec(p: &Vec<char>, windows: bool) -> (r: Vec<Vec<char>>)
    ensures
        crate::text::char_seqs(r@) == path_pieces(p@, windows),
{
    let mut parts: Vec<Vec<char>> = Vec::new();
    let mut cur: Vec<char> = Vec::new();
    let mut i: usize = 0;
    assert(p@.take(0) =~= Seq::<char>::empty());
    while i < p.len()
        invariant
            0 <= i <= p@.len(),
            crate::text::char_seqs(parts@).push(cur@) == path_pieces(p@.take(i as int), windows),
        decreases p.len() - i,
    {
        proof {
            assert(p@.take(i + 1).drop_last() =~= p@.take(i as int));
            lemma_pieces_nonempty(p@.take(i as int), windows);
        }
        let ghost prev = path_pieces(p@.take(i as int), windows);
        let c = p[i];
        if c == '/' || (windows && c == '\\') {
            let done = cur;
            parts.push(done);
            cur = Vec::new();
            assert(crate::text::char_seqs(parts@).push(cur@) =~= prev.push(seq![]));
        } else {
            cur.push(c);
            assert(crate::text::char_seqs(parts@).push(cur@) =~= prev.update(prev.len() - 1, prev.last().push(c)));
        }
        i = i + 1;
    }
    assert(p@.take(p@.len() as int) =~= p@);
    parts.push(cur);
    parts
}

proof fn lemma_pieces_nonempty(p: Seq<char>, windows: bool)
    ensures
        path_pieces(p, windows).len() >= 1,
    decreases p.len(),
{
    if p.len() > 0 {
        lemma_pieces_nonempty(p.drop_last(), windows);
    }
}

fn components_exec(pieces: &Vec<Vec<char>>) -> (r: Vec<Vec<char>>)
    ensures
        crate::text::char_seqs(r@) == components_of(crate::text::char_seqs(pieces@)),
{
    let ghost ps = crate::text::char_seqs(pieces@);
    let mut out: Vec<Vec<char>> = Vec::new();
    let mut i: usize = 0;
    while i < pieces.len()
        invariant
            0 <= i <= pieces@.len(),
            ps == crate::text::char_seqs(pieces@),
            crate::text::char_seqs(out@) == components_of(ps.take(i as int)),
        decreases pieces.len() - i,
    {
        assert(ps.take(i + 1).drop_last() =~= ps.take(i as int));
        assert(ps.take(i + 1).last() == pieces@[i as int]@);
        let x = &pieces[i];
        let is_dot = x.len() == 1 && x[0] == '.';
        assert(is_dot == (x@ == seq!['.'])) by {
            if x@.len() == 1 && x@[0] == '.' {
                assert(x@ =~= seq!['.']);
            }
        }
        if x.len() == 0 || (is_dot && i > 0) {
        } else {
            let ghost before = crate::text::char_seqs(out@);
            out.push(x.clone());
            assert(crate::text::char_seqs(out@) =~= before.push(x@));
        }
        i = i + 1;
    }
    assert(ps.take(pieces@.len() as int) =~= ps);
    out
}

proof fn lemma_resolve_none_extends(c: Seq<Seq<char>>, i: int, j: int)
    requires
        0 <= i <= j <= c.len(),
        resolve_dots(c.take(i)) is None,
    ensures
        resolve_dots(c.take(j)) is None,
    decreases j - i,
{
    if j > i {
        lemma_resolve_none_extends(c, i, j - 1);
        assert(c.take(j).drop_last() =~= c.take(j - 1));
    }
}

/// `resolve_dots` on components held in vectors.
fn resolve_exec(c: &Vec<Vec<char>>) -> (r: Option<Vec<Vec<char>>>)
    ensures
        match r {
            Some(v) => resolve_dots(crate::text::char_seqs(c@)) == Some(crate::text::char_seqs(v@)),
            None => resolve_dots(crate::text::char_seqs(c@)) is None,
        },
{
    let ghost cs = crate::text::char_seqs(c@);
    let mut st: Vec<Vec<char>> = Vec::new();
    let mut i: usize = 0;
    assert(cs.take(0) =~= Seq::<Seq<char>>::empty());
    assert(crate::text::char_seqs(st@) =~= Seq::<Seq<char>>::empty());
    while i < c.len()
        invariant
            0 <= i <= c@.len(),
            cs == crate::text::char_seqs(c@),
            resolve_dots(cs.take(i as int)) == Some(crate::text::char_seqs(st@)),
        decreases c.len() - i,
    {
        assert(cs.take(i + 1).drop_last() =~= cs.take(i as int));
        assert(cs.take(i + 1).last() == c@[i as int]@);
        let x = &c[i];
        let is_dotdot = x.len() == 2 && x[0] == '.' && x[1] == '.';
        let is_dot = x.len() == 1 && x[0] == '.';
        assert(is_dotdot == (x@ == seq!['.', '.'])) by {
            if x@.len() == 2 && x@[0] == '.' && x@[1] == '.' {
                assert(x@ =~= seq!['.', '.']);
            }
        }
        assert(is_dot == (x@ == seq!['.'])) by {
            if x@.len() == 1 && x@[0] == '.' {
                assert(x@ =~= seq!['.']);
            }
        }
        let ghost before = crate::text::char_seqs(st@);
        if is_dotdot {
            if st.len() == 0 {
                proof {
                    lemma_resolve_none_extends(cs, i + 1, cs.len() as int);
                    assert(cs.take(cs.len() as int) =~= cs);
                }
                return None;
            }
            let _ = st.pop();
            assert(crate::text::char_seqs(st@) =~= before.drop_last());
        } else if !is_dot {
            st.push(x.clone());
            assert(crate::text::char_seqs(st@) =~= before.push(x@));
        }
        i = i + 1;
    }
    assert(cs.take(c@.len() as int) =~= cs);
    Some(st)
}

/// Whether the components `b` are the first components of `a`.
fn comps_prefix(a: &Vec<Vec<char>>, b: &Vec<Vec<char>>) -> (r: bool)
    ensures
        r == seq_prefix(crate::text::char_seqs(a@), crate::text::char_seqs(b@)),
{
    let ghost am = crate::text::char_seqs(a@);
    let ghost bm = crate::text::char_seqs(b@);
    if b.len() > a.len() {
        return false;
    }
    let mut i: usize = 0;
    while i < b.len()
        invariant
            0 <= i <= b@.len() <= a@.len(),
            am == crate::text::char_seqs(a@),
            bm == crate::text::char_seqs(b@),
            forall|k: int| 0 <= k < i ==> am[k] == bm[k],
        decreases b.len() - i,
    {
        if !crate::order::chars_less(&a[i], &b[i]) && !crate::order::chars_less(&b[i], &a[i]) {
            proof {
                crate::order::lemma_chars_lt_total(a@[i as int]@, b@[i as int]@);
            }
        } else {
            proof {
                if a@[i as int]@ == b@[i as int]@ {
                    crate::order::lemma_chars_lt_irreflexive(a@[i as int]@);
                }
            }
            assert(am.take(bm.len() as int)[i as int] != bm[i as int]);
            return false;
        }
        i = i + 1;
    }
    assert(am.take(bm.len() as int) =~= bm);
    true
}

/// Whether `path` lies under `dir`, so that the clean-up of pasted images
/// deletes nothing outside their folder: the path must start with the folder
/// as written, and a `..` that leaves the folder, or climbs above its start,
/// makes it refused.
pub fn path_within(path: &str, dir: &str, windows: bool) -> (r: bool)
    ensures
        r == path_under(path@, dir@, windows),
{
    let pc = crate::text::chars_of(path);
    let dc = crate::text::chars_of(dir);
    let pa = pieces_exec(&pc, windows);
    let pb = pieces_exec(&dc, windows);
    let ca = components_exec(&pa);
    let cb = components_exec(&pb);
    let rooted_a = pc.len() > 0 && (pc[0] == '/' || (windows && pc[0] == '\\'));
    let rooted_b = dc.len() > 0 && (dc[0] == '/' || (windows && dc[0] == '\\'));
    assert(rooted_a == is_rooted(path@, windows));
    assert(rooted_b == is_rooted(dir@, windows));
    if rooted_a != rooted_b || !comps_prefix(&ca, &cb) {
        return false;
    }
    let a = match resolve_exec(&ca) {
        Some(v) => v,
        None => {
            return false;
        },
    };
    let b = match resolve_exec(&cb) {
        Some(v) => v,
        None => {
            return false;
        },
    };
    comps_prefix(&a, &b)
}

} // verus!
