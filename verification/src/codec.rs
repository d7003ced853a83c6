use vstd::prelude::*;
use vstd::utf8::{decode_utf8, encode_utf8, encode_utf8_decode_utf8, encode_utf8_valid_utf8,
    valid_utf8};

use crate::common::{entries_model, Entry, EntryModel, Project, ProjectModel};
use crate::errors::Error;

verus! {

// ---------------------------------------------------------------------------
// The serialized form of a registry, byte for byte.
//
// Every number is a 64-bit little-endian unsigned integer; every string is
// its byte length followed by its UTF-8 bytes. A registry is the entry
// count, the entries in order (name, hash, id each), and the active-profile
// pointer: a tag of 0 for none, or 1 followed by the profile name. The
// format is an internal concern of the store; nothing else reads it.
// ---------------------------------------------------------------------------

/// The eight little-endian bytes of `x`.
#[verifier::opaque]
pub open spec fn enc_u64(x: u64) -> Seq<u8> {
    seq![
        (x & 0xff) as u8,
        ((x >> 8) & 0xff) as u8,
        ((x >> 16) & 0xff) as u8,
        ((x >> 24) & 0xff) as u8,
        ((x >> 32) & 0xff) as u8,
        ((x >> 40) & 0xff) as u8,
        ((x >> 48) & 0xff) as u8,
        ((x >> 56) & 0xff) as u8,
    ]
}

/// The value read back from eight little-endian bytes.
#[verifier::opaque]
pub open spec fn dec_u64(b: Seq<u8>) -> u64
    recommends
        b.len() == 8,
{
    (b[0] as u64) | ((b[1] as u64) << 8) | ((b[2] as u64) << 16) | ((b[3] as u64) << 24)
        | ((b[4] as u64) << 32) | ((b[5] as u64) << 40) | ((b[6] as u64) << 48) | ((b[7] as u64)
        << 56)
}

/// A number always encodes to eight bytes.
pub broadcast proof fn lemma_enc_u64_len(x: u64)
    ensures
        (#[trigger] enc_u64(x)).len() == 8,
{
    reveal(enc_u64);
}

/// The encoding of a string: its UTF-8 byte length, then those bytes.
pub open spec fn enc_str(s: Seq<char>) -> Seq<u8> {
    enc_u64(encode_utf8(s).len() as u64) + encode_utf8(s)
}

/// The encoding of one registry entry.
pub open spec fn enc_entry(e: EntryModel) -> Seq<u8> {
    enc_str(e.name) + enc_str(e.hash) + enc_str(e.id)
}

/// The encoding of a sequence of entries, in order.
pub open spec fn enc_entries(es: Seq<EntryModel>) -> Seq<u8>
    decreases es.len(),
{
    if es.len() == 0 {
        Seq::empty()
    } else {
        enc_entry(es[0]) + enc_entries(es.drop_first())
    }
}

/// The encoding of a whole registry.
pub open spec fn enc_project(p: ProjectModel) -> Seq<u8> {
    enc_u64(p.entries.len() as u64) + enc_entries(p.entries) + match p.current_profile {
        Option::None => enc_u64(0),
        Option::Some(s) => enc_u64(1) + enc_str(s),
    }
}

/// The string fits the length field of the format.
pub open spec fn str_bounded(s: Seq<char>) -> bool {
    encode_utf8(s).len() <= u64::MAX
}

/// Every string of the entry fits the format.
pub open spec fn entry_bounded(e: EntryModel) -> bool {
    str_bounded(e.name) && str_bounded(e.hash) && str_bounded(e.id)
}

/// Every count and string of the registry fits the format. Every registry
/// held in memory is bounded, since its sequences live in vectors.
pub open spec fn project_bounded(p: ProjectModel) -> bool {
    &&& p.entries.len() <= u64::MAX
    &&& forall|i: int| 0 <= i < p.entries.len() ==> entry_bounded(#[trigger] p.entries[i])
    &&& match p.current_profile {
        Option::None => true,
        Option::Some(s) => str_bounded(s),
    }
}

// ---------------------------------------------------------------------------
// The parser of that form. Each combinator consumes from position `pos` and
// yields the parsed value with the position after it, or nothing when the
// input does not fit the format.
// ---------------------------------------------------------------------------

/// Reads a 64-bit little-endian number at `pos`.
pub open spec fn parse_u64(b: Seq<u8>, pos: int) -> Option<(u64, int)> {
    if 0 <= pos && pos + 8 <= b.len() {
        Option::Some((dec_u64(b.subrange(pos, pos + 8)), pos + 8))
    } else {
        Option::None
    }
}

/// Reads a length-prefixed UTF-8 string at `pos`.
pub open spec fn parse_str(b: Seq<u8>, pos: int) -> Option<(Seq<char>, int)> {
    match parse_u64(b, pos) {
        Option::None => Option::None,
        Option::Some((n, p)) => {
            if p + n as int <= b.len() && valid_utf8(b.subrange(p, p + n as int)) {
                Option::Some((decode_utf8(b.subrange(p, p + n as int)), p + n as int))
            } else {
                Option::None
            }
        },
    }
}

/// Reads one registry entry at `pos`.
pub open spec fn parse_entry(b: Seq<u8>, pos: int) -> Option<(EntryModel, int)> {
    match parse_str(b, pos) {
        Option::None => Option::None,
        Option::Some((name, p1)) => match parse_str(b, p1) {
            Option::None => Option::None,
            Option::Some((hash, p2)) => match parse_str(b, p2) {
                Option::None => Option::None,
                Option::Some((id, p3)) => Option::Some((EntryModel { name, hash, id }, p3)),
            },
        },
    }
}

/// Reads `n` entries starting at `pos`, appended after `acc`.
pub open spec fn parse_entries(b: Seq<u8>, pos: int, n: u64, acc: Seq<EntryModel>) -> Option<
    (Seq<EntryModel>, int),
>
    decreases n,
{
    if n == 0 {
        Option::Some((acc, pos))
    } else {
        match parse_entry(b, pos) {
            Option::None => Option::None,
            Option::Some((e, p)) => parse_entries(b, p, (n - 1) as u64, acc.push(e)),
        }
    }
}

/// Reads a whole registry; the input must hold exactly one encoding.
pub open spec fn parse_project(b: Seq<u8>) -> Option<ProjectModel> {
    match parse_u64(b, 0) {
        Option::None => Option::None,
        Option::Some((n, p0)) => match parse_entries(b, p0, n, Seq::empty()) {
            Option::None => Option::None,
            Option::Some((es, p1)) => match parse_u64(b, p1) {
                Option::None => Option::None,
                Option::Some((tag, p2)) => {
                    if tag == 0 {
                        if p2 == b.len() {
                            Option::Some(ProjectModel { entries: es, current_profile: Option::None })
                        } else {
                            Option::None
                        }
                    } else if tag == 1 {
                        match parse_str(b, p2) {
                            Option::None => Option::None,
                            Option::Some((cur, p3)) => {
                                if p3 == b.len() {
                                    Option::Some(
                                        ProjectModel {
                                            entries: es,
                                            current_profile: Option::Some(cur),
                                        },
                                    )
                                } else {
                                    Option::None
                                }
                            },
                        }
                    } else {
                        Option::None
                    }
                },
            },
        },
    }
}

// ---------------------------------------------------------------------------
// Round trip: parsing an encoding gives back exactly what was encoded.
// ---------------------------------------------------------------------------

proof fn lemma_dec_enc_u64(x: u64)
    ensures
        dec_u64(enc_u64(x)) == x,
{
    reveal(enc_u64);
    reveal(dec_u64);
    assert((((x & 0xff) as u8 as u64) | ((((x >> 8) & 0xff) as u8 as u64) << 8) | ((((x >> 16)
        & 0xff) as u8 as u64) << 16) | ((((x >> 24) & 0xff) as u8 as u64) << 24) | ((((x >> 32)
        & 0xff) as u8 as u64) << 32) | ((((x >> 40) & 0xff) as u8 as u64) << 40) | ((((x >> 48)
        & 0xff) as u8 as u64) << 48) | ((((x >> 56) & 0xff) as u8 as u64) << 56)) == x)
        by (bit_vector);
}

/// When `b` holds `x + y` at `pos`, it holds `x` at `pos` and `y` right
/// after it.
proof fn lemma_split_at(b: Seq<u8>, pos: int, x: Seq<u8>, y: Seq<u8>)
    requires
        0 <= pos,
        pos + x.len() + y.len() <= b.len(),
        b.subrange(pos, pos + x.len() + y.len()) == x + y,
    ensures
        b.subrange(pos, pos + x.len() as int) == x,
        b.subrange(pos + x.len() as int, pos + x.len() + y.len()) == y,
{
    let w = x + y;
    let l = w.len() as int;
    assert forall|i: int| 0 <= i < x.len() implies b.subrange(pos, pos + x.len() as int)[i]
        == x[i] by {
        assert(b.subrange(pos, pos + l)[i] == w[i]);
    }
    assert(b.subrange(pos, pos + x.len() as int) =~= x);
    assert forall|i: int| 0 <= i < y.len() implies b.subrange(
        pos + x.len() as int,
        pos + x.len() + y.len(),
    )[i] == y[i] by {
        assert(b.subrange(pos, pos + l)[x.len() + i] == w[x.len() + i]);
    }
    assert(b.subrange(pos + x.len() as int, pos + x.len() + y.len()) =~= y);
}

proof fn lemma_parse_u64_at(b: Seq<u8>, pos: int, x: u64)
    requires
        0 <= pos,
        pos + 8 <= b.len(),
        b.subrange(pos, pos + 8) == enc_u64(x),
    ensures
        parse_u64(b, pos) == Option::Some((x, pos + 8)),
{
    lemma_dec_enc_u64(x);
}

proof fn lemma_parse_str_at(b: Seq<u8>, pos: int, s: Seq<char>)
    requires
        0 <= pos,
        str_bounded(s),
        pos + enc_str(s).len() <= b.len(),
        b.subrange(pos, pos + enc_str(s).len() as int) == enc_str(s),
    ensures
        parse_str(b, pos) == Option::Some((s, pos + enc_str(s).len() as int)),
{
    broadcast use lemma_enc_u64_len;

    let u = encode_utf8(s);
    let n: u64 = u.len() as u64;
    assert(enc_str(s) == enc_u64(n) + u);
    assert(enc_u64(n).len() == 8);
    lemma_split_at(b, pos, enc_u64(n), u);
    lemma_parse_u64_at(b, pos, n);
    encode_utf8_valid_utf8(s);
    encode_utf8_decode_utf8(s);
}

proof fn lemma_parse_entry_at(b: Seq<u8>, pos: int, e: EntryModel)
    requires
        0 <= pos,
        entry_bounded(e),
        pos + enc_entry(e).len() <= b.len(),
        b.subrange(pos, pos + enc_entry(e).len() as int) == enc_entry(e),
    ensures
        parse_entry(b, pos) == Option::Some((e, pos + enc_entry(e).len() as int)),
{
    broadcast use lemma_enc_u64_len;

    let s1 = enc_str(e.name);
    let s2 = enc_str(e.hash);
    let s3 = enc_str(e.id);
    assert(enc_entry(e) =~= s1 + (s2 + s3));
    lemma_split_at(b, pos, s1, s2 + s3);
    lemma_split_at(b, pos + s1.len() as int, s2, s3);
    lemma_parse_str_at(b, pos, e.name);
    lemma_parse_str_at(b, pos + s1.len() as int, e.hash);
    lemma_parse_str_at(b, pos + s1.len() + s2.len(), e.id);
    assert(EntryModel { name: e.name, hash: e.hash, id: e.id } == e);
}

proof fn lemma_parse_entries_at(b: Seq<u8>, pos: int, es: Seq<EntryModel>, acc: Seq<EntryModel>)
    requires
        0 <= pos,
        pos + enc_entries(es).len() <= b.len(),
        b.subrange(pos, pos + enc_entries(es).len() as int) == enc_entries(es),
        es.len() <= u64::MAX,
        forall|i: int| 0 <= i < es.len() ==> entry_bounded(#[trigger] es[i]),
    ensures
        parse_entries(b, pos, es.len() as u64, acc) == Option::Some(
            (acc + es, pos + enc_entries(es).len() as int),
        ),
    decreases es.len(),
{
    broadcast use lemma_enc_u64_len;

    if es.len() == 0 {
        assert(acc + es =~= acc);
    } else {
        let e = es[0];
        let rest = es.drop_first();
        let le = enc_entry(e).len() as int;
        assert(enc_entries(es) == enc_entry(e) + enc_entries(rest));
        lemma_split_at(b, pos, enc_entry(e), enc_entries(rest));
        lemma_parse_entry_at(b, pos, e);
        assert forall|i: int| 0 <= i < rest.len() implies entry_bounded(#[trigger] rest[i]) by {
            assert(rest[i] == es[i + 1]);
        }
        lemma_parse_entries_at(b, pos + le, rest, acc.push(e));
        assert(acc.push(e) + rest =~= acc + es);
        assert((es.len() as u64 - 1) as u64 == rest.len() as u64);
    }
}

/// Round trip of the persisted registry format: parsing the encoding of any
/// registry yields exactly that registry. This is what makes a save followed
/// by a load reproduce the same entries and the same active-profile pointer.
#[verifier::rlimit(100)]
pub proof fn lemma_parse_enc_project(p: ProjectModel)
    requires
        project_bounded(p),
    ensures
        parse_project(enc_project(p)) == Option::Some(p),
{
    broadcast use lemma_enc_u64_len;

    let b = enc_project(p);
    let n: u64 = p.entries.len() as u64;
    let le = enc_entries(p.entries).len() as int;
    let tail: Seq<u8> = match p.current_profile {
        Option::None => enc_u64(0),
        Option::Some(s) => enc_u64(1) + enc_str(s),
    };
    assert(b == enc_u64(n) + enc_entries(p.entries) + tail);
    assert(b =~= enc_u64(n) + (enc_entries(p.entries) + tail));
    assert(b.subrange(0, b.len() as int) =~= b);
    lemma_split_at(b, 0, enc_u64(n), enc_entries(p.entries) + tail);
    lemma_parse_u64_at(b, 0, n);
    lemma_split_at(b, 8, enc_entries(p.entries), tail);
    lemma_parse_entries_at(b, 8, p.entries, Seq::empty());
    assert(Seq::<EntryModel>::empty() + p.entries =~= p.entries);
    assert(parse_u64(b, 0) == Option::Some((n, 8int)));
    assert(parse_entries(b, 8, n, Seq::empty()) == Option::Some((p.entries, 8 + le)));
    match p.current_profile {
        Option::None => {
            lemma_parse_u64_at(b, 8 + le, 0);
            assert(parse_u64(b, 8 + le) == Option::Some((0u64, 8 + le + 8)));
            assert(8 + le + 8 == b.len());
            assert(ProjectModel { entries: p.entries, current_profile: Option::None } == p);
        },
        Option::Some(s) => {
            assert(tail =~= enc_u64(1) + enc_str(s));
            lemma_split_at(b, 8 + le, enc_u64(1), enc_str(s));
            lemma_parse_u64_at(b, 8 + le, 1);
            lemma_parse_str_at(b, 8 + le + 8, s);
            assert(parse_u64(b, 8 + le) == Option::Some((1u64, 8 + le + 8)));
            assert(parse_str(b, 8 + le + 8) == Option::Some((s, 8 + le + 8 + enc_str(s).len())));
            assert(8 + le + 8 + enc_str(s).len() == b.len());
            assert(ProjectModel { entries: p.entries, current_profile: Option::Some(s) } == p);
        },
    }
}

/// Two distinct registries never serialize to the same bytes. Together with
/// the optimistic check of `save`, this is what detects a racing writer: the
/// bytes it left behind cannot be mistaken for the snapshot this writer
/// loaded.
pub proof fn lemma_enc_project_injective(p1: ProjectModel, p2: ProjectModel)
    requires
        project_bounded(p1),
        project_bounded(p2),
        p1 != p2,
    ensures
        enc_project(p1) != enc_project(p2),
{
    if enc_project(p1) == enc_project(p2) {
        lemma_parse_enc_project(p1);
        lemma_parse_enc_project(p2);
        assert(false);
    }
}

proof fn lemma_enc_entries_snoc(es: Seq<EntryModel>, e: EntryModel)
    ensures
        enc_entries(es.push(e)) == enc_entries(es) + enc_entry(e),
    decreases es.len(),
{
    if es.len() == 0 {
        assert(es.push(e)[0] == e);
        assert(es.push(e).drop_first() =~= Seq::<EntryModel>::empty());
        assert(enc_entries(es.push(e)) == enc_entry(e) + enc_entries(
            Seq::<EntryModel>::empty(),
        ));
        assert(enc_entry(e) + Seq::<u8>::empty() =~= enc_entry(e));
        assert(enc_entries(es) + enc_entry(e) =~= enc_entry(e));
    } else {
        assert(es.push(e).drop_first() =~= es.drop_first().push(e));
        lemma_enc_entries_snoc(es.drop_first(), e);
        assert(enc_entry(es[0]) + (enc_entries(es.drop_first()) + enc_entry(e)) =~= (enc_entry(
            es[0],
        ) + enc_entries(es.drop_first())) + enc_entry(e));
    }
}

// ---------------------------------------------------------------------------
// The executable encoder and decoder, each proved against the spec above.
// ---------------------------------------------------------------------------

fn push_u64(out: &mut Vec<u8>, x: u64)
    ensures
        final(out)@ == old(out)@ + enc_u64(x),
{
    proof {
        assert((x & 0xff) < 256 && ((x >> 8) & 0xff) < 256 && ((x >> 16) & 0xff) < 256 && ((x
            >> 24) & 0xff) < 256 && ((x >> 32) & 0xff) < 256 && ((x >> 40) & 0xff) < 256 && ((x
            >> 48) & 0xff) < 256 && ((x >> 56) & 0xff) < 256) by (bit_vector);
    }
    out.push((x & 0xff) as u8);
    out.push(((x >> 8) & 0xff) as u8);
    out.push(((x >> 16) & 0xff) as u8);
    out.push(((x >> 24) & 0xff) as u8);
    out.push(((x >> 32) & 0xff) as u8);
    out.push(((x >> 40) & 0xff) as u8);
    out.push(((x >> 48) & 0xff) as u8);
    out.push(((x >> 56) & 0xff) as u8);
    proof {
        reveal(enc_u64);
        assert(out@ =~= old(out)@ + enc_u64(x));
    }
}

fn push_str(out: &mut Vec<u8>, s: &String)
    ensures
        final(out)@ == old(out)@ + enc_str(s@),
{
    let bs: &[u8] = s.as_str().as_bytes();
    let n: u64 = bs.len() as u64;
    push_u64(out, n);
    let ghost mid: Seq<u8> = out@;
    let mut i: usize = 0;
    while i < bs.len()
        invariant
            i <= bs.len(),
            out@ == mid + bs@.subrange(0, i as int),
        decreases bs.len() - i,
    {
        out.push(*vstd::slice::slice_index_get(bs, i));
        proof {
            assert((mid + bs@.subrange(0, i as int)).push(bs@[i as int]) =~= mid + bs@.subrange(
                0,
                i + 1,
            ));
        }
        i += 1;
    }
    proof {
        broadcast use lemma_enc_u64_len;

        assert(bs@.subrange(0, bs@.len() as int) =~= bs@);
        assert(out@ =~= old(out)@ + enc_str(s@));
    }
}

/// Serializes a registry into the persisted byte form.
pub fn encode(project: &Project) -> (r: Vec<u8>)
    ensures
        r@ == enc_project(project@),
{
    let mut out: Vec<u8> = Vec::new();
    let n: u64 = project.entries.len() as u64;
    push_u64(&mut out, n);
    let mut i: usize = 0;
    while i < project.entries.len()
        invariant
            i <= project.entries.len(),
            n == project.entries@.len() as u64,
            out@ == enc_u64(n) + enc_entries(project@.entries.subrange(0, i as int)),
        decreases project.entries.len() - i,
    {
        let e = &project.entries[i];
        proof {
            assert(project@.entries[i as int] == e@);
        }
        push_str(&mut out, &e.name);
        push_str(&mut out, &e.hash);
        push_str(&mut out, &e.id);
        proof {
            broadcast use lemma_enc_u64_len;

            lemma_enc_entries_snoc(
                project@.entries.subrange(0, i as int),
                project@.entries[i as int],
            );
            assert(project@.entries.subrange(0, i as int).push(project@.entries[i as int])
                =~= project@.entries.subrange(0, i + 1));
            assert(out@ =~= enc_u64(n) + enc_entries(project@.entries.subrange(0, i + 1)));
        }
        i += 1;
    }
    proof {
        assert(project@.entries.subrange(0, project@.entries.len() as int) =~= project@.entries);
    }
    match &project.current_profile {
        Option::None => {
            push_u64(&mut out, 0);
        },
        Option::Some(cur) => {
            push_u64(&mut out, 1);
            push_str(&mut out, cur);
        },
    }
    proof {
        broadcast use lemma_enc_u64_len;

        assert(out@ =~= enc_project(project@));
    }
    out
}

/// Relies on `String::from_utf8`: it succeeds exactly on valid UTF-8 input,
/// returning the string whose characters decode those bytes.
#[verifier::external_body]
fn string_from_utf8(bytes: Vec<u8>) -> (r: Option<String>)
    ensures
        r is Some <==> valid_utf8(bytes@),
        r matches Option::Some(s) ==> s@ == decode_utf8(bytes@),
{
    String::from_utf8(bytes).ok()
}

fn read_u64(b: &Vec<u8>, pos: usize) -> (r: Option<(u64, usize)>)
    ensures
        match r {
            Option::Some(v) => parse_u64(b@, pos as int) == Option::Some((v.0, v.1 as int)),
            Option::None => parse_u64(b@, pos as int) is None,
        },
{
    if pos < b.len() && b.len() - pos >= 8 {
        let x: u64 = (b[pos] as u64) | ((b[pos + 1] as u64) << 8) | ((b[pos + 2] as u64) << 16) | (
        (b[pos + 3] as u64) << 24) | ((b[pos + 4] as u64) << 32) | ((b[pos + 5] as u64) << 40) | ((
        b[pos + 6] as u64) << 48) | ((b[pos + 7] as u64) << 56);
        proof {
            reveal(dec_u64);
            assert(x == dec_u64(b@.subrange(pos as int, pos as int + 8)));
        }
        Some((x, pos + 8))
    } else {
        None
    }
}

fn read_str(b: &Vec<u8>, pos: usize) -> (r: Option<(String, usize)>)
    ensures
        match r {
            Option::Some(v) => parse_str(b@, pos as int) == Option::Some((v.0@, v.1 as int)),
            Option::None => parse_str(b@, pos as int) is None,
        },
{
    match read_u64(b, pos) {
        Option::None => None,
        Option::Some((n, p)) => {
            if n <= (b.len() - p) as u64 {
                let len: usize = n as usize;
                let sub: &[u8] = vstd::slice::slice_subrange(b.as_slice(), p, p + len);
                let buf: Vec<u8> = vstd::slice::slice_to_vec(sub);
                match string_from_utf8(buf) {
                    Option::Some(s) => Some((s, p + len)),
                    Option::None => None,
                }
            } else {
                None
            }
        },
    }
}

fn read_entry(b: &Vec<u8>, pos: usize) -> (r: Option<(Entry, usize)>)
    ensures
        match r {
            Option::Some(v) => parse_entry(b@, pos as int) == Option::Some((v.0@, v.1 as int)),
            Option::None => parse_entry(b@, pos as int) is None,
        },
{
    match read_str(b, pos) {
        Option::None => None,
        Option::Some((name, p1)) => match read_str(b, p1) {
            Option::None => None,
            Option::Some((hash, p2)) => match read_str(b, p2) {
                Option::None => None,
                Option::Some((id, p3)) => Some((Entry { name, hash, id }, p3)),
            },
        },
    }
}

/// Deserializes the persisted byte form back into a registry; `None` when
/// the bytes do not hold exactly one encoding.
pub fn decode(bytes: &Vec<u8>) -> (r: Option<Project>)
    ensures
        match r {
            Option::Some(p) => parse_project(bytes@) == Option::Some(p@),
            Option::None => parse_project(bytes@) is None,
        },
{
    match read_u64(bytes, 0) {
        Option::None => None,
        Option::Some((n, p0)) => {
            let mut entries: Vec<Entry> = Vec::new();
            let mut remaining: u64 = n;
            let mut pos: usize = p0;
            proof {
                assert(entries_model(entries@) =~= Seq::<EntryModel>::empty());
            }
            while remaining > 0
                invariant
                    parse_u64(bytes@, 0) == Option::Some((n, p0 as int)),
                    parse_entries(bytes@, p0 as int, n, Seq::empty()) == parse_entries(
                        bytes@,
                        pos as int,
                        remaining,
                        entries_model(entries@),
                    ),
                decreases remaining,
            {
                match read_entry(bytes, pos) {
                    Option::None => {
                        return None;
                    },
                    Option::Some((e, p)) => {
                        proof {
                            assert(entries_model(entries@).push(e@) =~= entries_model(
                                entries@.push(e),
                            ));
                        }
                        entries.push(e);
                        pos = p;
                        remaining = remaining - 1;
                    },
                }
            }
            match read_u64(bytes, pos) {
                Option::None => None,
                Option::Some((tag, p2)) => {
                    if tag == 0 {
                        if p2 == bytes.len() {
                            Some(Project { entries, current_profile: Option::None })
                        } else {
                            None
                        }
                    } else if tag == 1 {
                        match read_str(bytes, p2) {
                            Option::None => None,
                            Option::Some((cur, p3)) => {
                                if p3 == bytes.len() {
                                    Some(Project { entries, current_profile: Option::Some(cur) })
                                } else {
                                    None
                                }
                            },
                        }
                    } else {
                        None
                    }
                },
            }
        },
    }
}

// ---------------------------------------------------------------------------
// Loading and saving, over raw file content handed in and out as bytes.
// ---------------------------------------------------------------------------

/// The model of optional raw file content.
pub open spec fn opt_bytes(o: Option<Vec<u8>>) -> Option<Seq<u8>> {
    match o {
        Option::None => Option::None,
        Option::Some(v) => Option::Some(v@),
    }
}

/// True iff two byte vectors hold the same bytes.
fn bytes_eq(a: &Vec<u8>, b: &Vec<u8>) -> (r: bool)
    ensures
        r == (a@ == b@),
{
    if a.len() != b.len() {
        return false;
    }
    let mut i: usize = 0;
    while i < a.len()
        invariant
            i <= a.len(),
            a.len() == b.len(),
            forall|k: int| 0 <= k < i ==> a@[k] == b@[k],
        decreases a.len() - i,
    {
        if a[i] != b[i] {
            return false;
        }
        i += 1;
    }
    proof {
        assert(a@ =~= b@);
    }
    true
}

/// Loads the registry persisted as `bytes` (`None` where no config file
/// exists). A missing file is the normal state of a project with no
/// profiles yet; it, content that does not parse, and content that parses
/// to a registry breaking the invariant all yield a fresh empty registry.
pub fn load(bytes: &Option<Vec<u8>>) -> (p: Project)
    ensures
        p@.wf(),
        match bytes {
            Option::None => p@ == ProjectModel::empty(),
            Option::Some(b) => match parse_project(b@) {
                Option::Some(m) => p@ == if m.wf() {
                    m
                } else {
                    ProjectModel::empty()
                },
                Option::None => p@ == ProjectModel::empty(),
            },
        },
{
    match bytes {
        Option::None => crate::common::Project::empty(),
        Option::Some(b) => match decode(b) {
            Option::None => crate::common::Project::empty(),
            Option::Some(p) => {
                if crate::common::is_wf(&p) {
                    p
                } else {
                    crate::common::Project::empty()
                }
            },
        },
    }
}

/// Serializes `project` for persistence, with an optimistic concurrency
/// check closing the load-mutate-save race between two invocations:
/// `snapshot` is the raw config content read when the registry was loaded,
/// `on_disk` the content at save time. When the two differ, another writer
/// got in between, and the save fails with `Conflict` instead of silently
/// discarding that writer's change; otherwise the caller receives the bytes
/// to write over the config atomically.
pub fn save(project: &Project, snapshot: &Option<Vec<u8>>, on_disk: &Option<Vec<u8>>) -> (r:
    Result<Vec<u8>, Error>)
    ensures
        match r {
            Result::Ok(out) => opt_bytes(*on_disk) == opt_bytes(*snapshot) && out@ == enc_project(
                project@,
            ),
            Result::Err(e) => e == Error::Conflict && opt_bytes(*on_disk) != opt_bytes(*snapshot),
        },
{
    let unchanged: bool = match (snapshot, on_disk) {
        (Option::None, Option::None) => true,
        (Option::Some(a), Option::Some(b)) => bytes_eq(a, b),
        _ => false,
    };
    if unchanged {
        Ok(encode(project))
    } else {
        Err(Error::Conflict)
    }
}

} // verus!
