//! Reading the origin URI a cached thumbnail embeds: the value of the
//! first PNG text chunk (plain or compressed) keyed `Thumb::URI`.
//!
//! The chunk framing (signature; length, type, data, checksum per chunk)
//! is parsed here, in verified code; only zlib inflation and lossy UTF-8
//! decoding stand behind trusted items. Chunk checksums are skipped, not
//! checked, and a frame that overruns the bytes ends the walk: a damaged
//! file yields the chunks before the damage, never a panic.
use vstd::prelude::*;

verus! {

/// The eight-byte PNG file signature.
pub open spec fn png_signature() -> Seq<u8> {
    seq![137u8, 80u8, 78u8, 71u8, 13u8, 10u8, 26u8, 10u8]
}

/// The bytes begin with the PNG signature.
pub open spec fn spec_is_png(b: Seq<u8>) -> bool {
    b.len() >= 8 && b.subrange(0, 8) == png_signature()
}

/// The characters std's lossy UTF-8 decoding yields for a byte string.
pub uninterp spec fn lossy_utf8_of(b: Seq<u8>) -> Seq<char>;

/// Relies on `String::from_utf8_lossy`: the decoding depends on the bytes
/// alone.
#[verifier::external_body]
pub(crate) fn bytes_to_string_lossy(b: &Vec<u8>) -> (r: String)
    ensures
        r@ == lossy_utf8_of(b@),
{
    String::from_utf8_lossy(b.as_slice()).into_owned()
}

/// What a zlib stream inflates to, if it inflates.
pub uninterp spec fn inflated_of(b: Seq<u8>) -> Option<Seq<u8>>;

/// Relies on `miniz_oxide::inflate::decompress_to_vec_zlib`: it returns a
/// `Result` rather than panicking, and the outcome depends on the bytes
/// alone.
#[verifier::external_body]
pub(crate) fn inflate_zlib(b: &Vec<u8>) -> (r: Option<Vec<u8>>)
    ensures
        r is Some <==> inflated_of(b@) is Some,
        r matches Some(v) ==> inflated_of(b@) == Some(v@),
{
    miniz_oxide::inflate::decompress_to_vec_zlib(b.as_slice()).ok()
}

/// The big-endian 32-bit value at offset `i`.
pub open spec fn spec_be32(b: Seq<u8>, i: int) -> int
    recommends
        0 <= i,
        i + 4 <= b.len(),
{
    (b[i] as int) * 0x1000000 + (b[i + 1] as int) * 0x10000 + (b[i + 2] as int) * 0x100 + (b[i
        + 3] as int)
}

/// The position of the first NUL byte at or after `i`, if any.
pub open spec fn spec_nul_pos_from(b: Seq<u8>, i: int) -> Option<int>
    decreases b.len() - i,
{
    if i < 0 || i >= b.len() {
        Option::None
    } else if b[i] == 0 {
        Option::Some(i)
    } else {
        spec_nul_pos_from(b, i + 1)
    }
}

/// The position of the first NUL byte, if any.
pub open spec fn spec_nul_pos(b: Seq<u8>) -> Option<int> {
    spec_nul_pos_from(b, 0)
}

/// The chunk type of a tEXt chunk.
pub open spec fn text_chunk_type() -> Seq<u8> {
    seq![116u8, 69u8, 88u8, 116u8]
}

/// The chunk type of a zTXt chunk.
pub open spec fn ztext_chunk_type() -> Seq<u8> {
    seq![122u8, 84u8, 88u8, 116u8]
}

/// The (key, value) pairs one tEXt payload contributes: the key runs to
/// the NUL terminator and must be 1 to 79 bytes, the value is the rest; a
/// malformed payload contributes nothing.
pub open spec fn spec_text_entries(data: Seq<u8>) -> Seq<(Seq<char>, Seq<char>)> {
    match spec_nul_pos(data) {
        Option::None => Seq::empty(),
        Option::Some(p) => if 1 <= p <= 79 {
            seq![
                (
                    lossy_utf8_of(data.subrange(0, p)),
                    lossy_utf8_of(data.subrange(p + 1, data.len() as int)),
                ),
            ]
        } else {
            Seq::empty()
        },
    }
}

/// The (key, value) pairs one zTXt payload contributes: key as in tEXt,
/// then a compression-method byte, then a zlib stream holding the value;
/// a payload whose stream does not inflate contributes nothing.
pub open spec fn spec_ztext_entries(data: Seq<u8>) -> Seq<(Seq<char>, Seq<char>)> {
    match spec_nul_pos(data) {
        Option::None => Seq::empty(),
        Option::Some(p) => if 1 <= p <= 79 && p + 2 <= data.len() {
            match inflated_of(data.subrange(p + 2, data.len() as int)) {
                Option::None => Seq::empty(),
                Option::Some(v) => seq![(lossy_utf8_of(data.subrange(0, p)), lossy_utf8_of(v))],
            }
        } else {
            Seq::empty()
        },
    }
}

/// The text entries of the chunks framed from position `i` on. Each chunk
/// is a length, a four-byte type, the data, and a four-byte checksum; a
/// frame that overruns the bytes ends the walk.
pub open spec fn spec_chunks_from(b: Seq<u8>, i: int) -> Seq<(Seq<char>, Seq<char>)>
    decreases b.len() - i,
{
    if i < 0 || i + 12 > b.len() {
        Seq::empty()
    } else {
        let len = spec_be32(b, i);
        let data_end = i + 8 + len;
        if data_end + 4 > b.len() {
            Seq::empty()
        } else {
            let ty = b.subrange(i + 4, i + 8);
            let data = b.subrange(i + 8, data_end);
            let rest = spec_chunks_from(b, data_end + 4);
            if ty == text_chunk_type() {
                spec_text_entries(data) + rest
            } else if ty == ztext_chunk_type() {
                spec_ztext_entries(data) + rest
            } else {
                rest
            }
        }
    }
}

/// The text chunks a PNG byte string holds, as (key, value) pairs in file
/// order; `None` when the signature is absent.
pub open spec fn spec_png_texts(b: Seq<u8>) -> Option<Seq<(Seq<char>, Seq<char>)>> {
    if spec_is_png(b) {
        Option::Some(spec_chunks_from(b, 8))
    } else {
        Option::None
    }
}

/// The views of a sequence of string pairs.
pub open spec fn chunk_views(s: Seq<(String, String)>) -> Seq<(Seq<char>, Seq<char>)> {
    s.map_values(|p: (String, String)| (p.0@, p.1@))
}

/// Copies the bytes of `b` from `from` (inclusive) to `to` (exclusive).
fn copy_range(b: &Vec<u8>, from: usize, to: usize) -> (r: Vec<u8>)
    requires
        from <= to <= b@.len(),
    ensures
        r@ == b@.subrange(from as int, to as int),
{
    let mut r: Vec<u8> = Vec::new();
    let mut i: usize = from;
    while i < to
        invariant
            from <= i <= to <= b@.len(),
            r@ =~= b@.subrange(from as int, i as int),
        decreases to - i,
    {
        r.push(b[i]);
        proof {
            assert(r@ =~= b@.subrange(from as int, i + 1));
        }
        i = i + 1;
    }
    r
}

/// Finds the first NUL byte of `b`.
fn nul_pos(b: &Vec<u8>) -> (r: Option<usize>)
    ensures
        r matches Some(p) ==> p < b@.len() && spec_nul_pos(b@) == Option::Some(p as int),
        r is None ==> spec_nul_pos(b@) is None,
{
    let mut i: usize = 0;
    while i < b.len()
        invariant
            i <= b@.len(),
            spec_nul_pos(b@) == spec_nul_pos_from(b@, i as int),
        decreases b@.len() - i,
    {
        if b[i] == 0 {
            return Some(i);
        }
        i = i + 1;
    }
    None
}

/// The big-endian 32-bit value at offset `i`.
fn be32_at(b: &Vec<u8>, i: usize) -> (r: u32)
    requires
        i + 4 <= b@.len(),
    ensures
        r as int == spec_be32(b@, i as int),
{
    let n = b.len();
    let x0 = b[i] as u32;
    let x1 = b[i + 1] as u32;
    let x2 = b[i + 2] as u32;
    let x3 = b[i + 3] as u32;
    x0 * 0x1000000 + x1 * 0x10000 + x2 * 0x100 + x3
}

/// Parses one tEXt payload into its (key, value) pair, if well formed.
fn parse_text_data(data: &Vec<u8>) -> (r: Option<(String, String)>)
    ensures
        r matches Some(kv) ==> spec_text_entries(data@) == seq![(kv.0@, kv.1@)],
        r is None ==> spec_text_entries(data@) == Seq::<(Seq<char>, Seq<char>)>::empty(),
{
    let p = match nul_pos(data) {
        Some(p) => p,
        None => {
            return None;
        },
    };
    if p < 1 || p > 79 {
        return None;
    }
    let key = bytes_to_string_lossy(&copy_range(data, 0, p));
    let val = bytes_to_string_lossy(&copy_range(data, p + 1, data.len()));
    Some((key, val))
}

/// Parses one zTXt payload into its (key, value) pair, if well formed and
/// its stream inflates.
fn parse_ztext_data(data: &Vec<u8>) -> (r: Option<(String, String)>)
    ensures
        r matches Some(kv) ==> spec_ztext_entries(data@) == seq![(kv.0@, kv.1@)],
        r is None ==> spec_ztext_entries(data@) == Seq::<(Seq<char>, Seq<char>)>::empty(),
{
    let p = match nul_pos(data) {
        Some(p) => p,
        None => {
            return None;
        },
    };
    if p < 1 || p > 79 || data.len() - p < 2 {
        return None;
    }
    let inflated = match inflate_zlib(&copy_range(data, p + 2, data.len())) {
        Some(v) => v,
        None => {
            return None;
        },
    };
    let key = bytes_to_string_lossy(&copy_range(data, 0, p));
    let val = bytes_to_string_lossy(&inflated);
    Some((key, val))
}

/// Walks a PNG byte string's chunk frames and collects the tEXt and zTXt
/// chunks as (key, value) pairs in file order; `None` when the bytes do
/// not begin with the PNG signature.
pub fn png_text_chunks(bytes: &Vec<u8>) -> (r: Option<Vec<(String, String)>>)
    ensures
        r is Some <==> spec_png_texts(bytes@) is Some,
        r matches Some(v) ==> spec_png_texts(bytes@) == Option::Some(chunk_views(v@)),
{
    let n = bytes.len();
    if n < 8 || bytes[0] != 137 || bytes[1] != 80 || bytes[2] != 78 || bytes[3] != 71
        || bytes[4] != 13 || bytes[5] != 10 || bytes[6] != 26 || bytes[7] != 10 {
        proof {
            if bytes@.len() >= 8 && bytes@.subrange(0, 8) == png_signature() {
                assert(bytes@[0] == png_signature()[0]);
                assert(bytes@[1] == png_signature()[1]);
                assert(bytes@[2] == png_signature()[2]);
                assert(bytes@[3] == png_signature()[3]);
                assert(bytes@[4] == png_signature()[4]);
                assert(bytes@[5] == png_signature()[5]);
                assert(bytes@[6] == png_signature()[6]);
                assert(bytes@[7] == png_signature()[7]);
            }
        }
        return None;
    }
    proof {
        assert(bytes@.subrange(0, 8) =~= png_signature());
    }
    let mut out: Vec<(String, String)> = Vec::new();
    let mut i: usize = 8;
    while n - i >= 12
        invariant
            8 <= i <= n,
            n == bytes@.len(),
            chunk_views(out@) + spec_chunks_from(bytes@, i as int) =~= spec_chunks_from(
                bytes@,
                8,
            ),
        decreases n - i,
    {
        let len32 = be32_at(bytes, i);
        let len = len32 as usize;
        let data_start = i + 8;
        if len > n - data_start - 4 {
            proof {
                assert(spec_chunks_from(bytes@, i as int) == Seq::<
                    (Seq<char>, Seq<char>),
                >::empty());
                assert(spec_chunks_from(bytes@, n as int) == Seq::<
                    (Seq<char>, Seq<char>),
                >::empty());
            }
            i = n;
        } else {
            let data_end = data_start + len;
            let ghost prev = out@;
            let ghost spec_here = spec_chunks_from(bytes@, i as int);
            let ghost rest = spec_chunks_from(bytes@, data_end + 4);
            let is_text = bytes[i + 4] == 116 && bytes[i + 5] == 69 && bytes[i + 6] == 88
                && bytes[i + 7] == 116;
            let is_ztext = bytes[i + 4] == 122 && bytes[i + 5] == 84 && bytes[i + 6] == 88
                && bytes[i + 7] == 116;
            proof {
                let ty = bytes@.subrange(i + 4, i + 8);
                assert(ty.len() == 4 && ty[0] == bytes@[i + 4] && ty[1] == bytes@[i + 5] && ty[2]
                    == bytes@[i + 6] && ty[3] == bytes@[i + 7]);
                if is_text {
                    assert(ty =~= text_chunk_type());
                } else {
                    assert(ty != text_chunk_type()) by {
                        if ty == text_chunk_type() {
                            assert(ty[0] == 116u8 && ty[1] == 69u8 && ty[2] == 88u8 && ty[3]
                                == 116u8);
                        }
                    }
                }
                if is_ztext {
                    assert(ty =~= ztext_chunk_type());
                } else {
                    assert(ty != ztext_chunk_type()) by {
                        if ty == ztext_chunk_type() {
                            assert(ty[0] == 122u8 && ty[1] == 84u8 && ty[2] == 88u8 && ty[3]
                                == 116u8);
                        }
                    }
                }
            }
            if is_text {
                let data = copy_range(bytes, data_start, data_end);
                if let Some(kv) = parse_text_data(&data) {
                    proof {
                        assert(spec_here =~= spec_text_entries(data@) + rest);
                    }
                    out.push(kv);
                    proof {
                        assert(chunk_views(out@) =~= chunk_views(prev) + spec_text_entries(
                            data@,
                        ));
                    }
                } else {
                    proof {
                        assert(spec_here =~= rest);
                    }
                }
            } else if is_ztext {
                let data = copy_range(bytes, data_start, data_end);
                if let Some(kv) = parse_ztext_data(&data) {
                    proof {
                        assert(spec_here =~= spec_ztext_entries(data@) + rest);
                    }
                    out.push(kv);
                    proof {
                        assert(chunk_views(out@) =~= chunk_views(prev) + spec_ztext_entries(
                            data@,
                        ));
                    }
                } else {
                    proof {
                        assert(spec_here =~= rest);
                    }
                }
            } else {
                proof {
                    assert(spec_here =~= rest);
                }
            }
            proof {
                assert(chunk_views(out@) + rest =~= chunk_views(prev) + spec_here);
                assert(chunk_views(out@) + rest =~= spec_chunks_from(bytes@, 8));
            }
            i = data_end + 4;
        }
    }
    proof {
        assert(spec_chunks_from(bytes@, i as int) == Seq::<(Seq<char>, Seq<char>)>::empty());
        assert(chunk_views(out@) =~= spec_chunks_from(bytes@, 8));
    }
    Some(out)
}

/// The metadata key under which a thumbnail records its origin URI.
pub open spec fn thumb_uri_key() -> Seq<char> {
    "Thumb::URI"@
}

/// The value of the first pair whose key is `key`, if any.
pub open spec fn spec_first_value_for(
    texts: Seq<(Seq<char>, Seq<char>)>,
    key: Seq<char>,
) -> Option<Seq<char>>
    decreases texts.len(),
{
    if texts.len() == 0 {
        Option::None
    } else if texts[0].0 == key {
        Option::Some(texts[0].1)
    } else {
        spec_first_value_for(texts.drop_first(), key)
    }
}

/// Finds the origin URI among a thumbnail's text chunks: the value of the
/// first chunk keyed `Thumb::URI`.
pub fn find_thumb_uri(texts: &Vec<(String, String)>) -> (r: Option<String>)
    ensures
        r is Some <==> spec_first_value_for(chunk_views(texts@), thumb_uri_key()) is Some,
        r matches Some(v) ==> spec_first_value_for(chunk_views(texts@), thumb_uri_key())
            == Option::Some(v@),
{
    let key = String::from_str("Thumb::URI");
    let ghost cv = chunk_views(texts@);
    proof {
        assert(cv.subrange(0, cv.len() as int) =~= cv);
    }
    let mut i: usize = 0;
    while i < texts.len()
        invariant
            i <= texts.len(),
            cv == chunk_views(texts@),
            key@ == thumb_uri_key(),
            spec_first_value_for(cv, thumb_uri_key()) == spec_first_value_for(
                cv.subrange(i as int, cv.len() as int),
                thumb_uri_key(),
            ),
        decreases texts.len() - i,
    {
        let pair = &texts[i];
        proof {
            assert(cv.subrange(i as int, cv.len() as int)[0] == cv[i as int]);
            assert(cv[i as int] == (texts@[i as int].0@, texts@[i as int].1@));
        }
        if pair.0 == key {
            return Some(pair.1.clone());
        }
        proof {
            assert(cv.subrange(i as int, cv.len() as int).drop_first() =~= cv.subrange(
                i + 1,
                cv.len() as int,
            ));
        }
        i = i + 1;
    }
    proof {
        assert(cv.subrange(i as int, cv.len() as int).len() == 0);
    }
    None
}

} // verus!
