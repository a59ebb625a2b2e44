//! The multipart bundle codec.
//!
//! An upload or download body is one bundle: a sequence of parts, each
//! introduced by a boundary line, carrying a small header block (the part's
//! name and its content type) and a byte payload, and closed by a final
//! boundary line.  Encoding writes a list of (name, content) parts into such
//! a body; decoding splits a body back into its parts.  Both directions are
//! defined against the same specification-level byte layout, and a proved
//! round trip ties them together.

use vstd::prelude::*;
use vstd::utf8::encode_utf8;

use crate::search::find_from;
use crate::search::find_sub;
use crate::search::is_match_at;
use crate::search::lemma_find_from_exact;
use crate::search::lemma_find_from_some;
use crate::search::lemma_match_at_in_window;
use crate::search::lemma_suffix_subrange;
use crate::search::match_at;
use crate::search::sub_vec;
use crate::structs::MilvueError;

verus! {

/// Carriage return, line feed: the line terminator of the bundle grammar.
pub open spec fn crlf() -> Seq<u8> {
    seq![13u8, 10u8]
}

/// Two dashes, as they precede a boundary and close the final one.
pub open spec fn dash_dash() -> Seq<u8> {
    seq![45u8, 45u8]
}

/// The empty line that separates a part's header block from its payload.
pub open spec fn crlfcrlf() -> Seq<u8> {
    seq![13u8, 10u8, 13u8, 10u8]
}

/// The bytes of `Content-Disposition: form-data; name="`, the header line
/// that carries a part's name, up to and including the opening quote.
pub open spec fn disp_prefix() -> Seq<u8> {
    seq![
        67u8, 111u8, 110u8, 116u8, 101u8, 110u8, 116u8, 45u8, 68u8, 105u8, 115u8, 112u8, 111u8,
        115u8, 105u8, 116u8, 105u8, 111u8, 110u8, 58u8, 32u8, 102u8, 111u8, 114u8, 109u8, 45u8,
        100u8, 97u8, 116u8, 97u8, 59u8, 32u8, 110u8, 97u8, 109u8, 101u8, 61u8, 34u8,
    ]
}

/// The bytes of `Content-Type: application/dicom`, the content type every
/// part of a bundle carries.
pub open spec fn ctype_line() -> Seq<u8> {
    seq![
        67u8, 111u8, 110u8, 116u8, 101u8, 110u8, 116u8, 45u8, 84u8, 121u8, 112u8, 101u8, 58u8,
        32u8, 97u8, 112u8, 112u8, 108u8, 105u8, 99u8, 97u8, 116u8, 105u8, 111u8, 110u8, 47u8,
        100u8, 105u8, 99u8, 111u8, 109u8,
    ]
}

/// A boundary line as it stands in a body: two dashes and the boundary.
pub open spec fn dash_boundary(b: Seq<u8>) -> Seq<u8> {
    dash_dash() + b
}

/// The delimiter that ends a part's payload: a line break followed by the
/// next boundary line.
pub open spec fn delim(b: Seq<u8>) -> Seq<u8> {
    crlf() + dash_dash() + b
}

/// What closes a bundle after the final boundary line: two dashes and a line
/// break.
pub open spec fn close_suffix() -> Seq<u8> {
    seq![45u8, 45u8, 13u8, 10u8]
}

/// One part of a bundle: a name and a byte payload.
#[derive(Clone, Debug)]
pub struct Part {
    pub name: Vec<u8>,
    pub content: Vec<u8>,
}

/// The mathematical value of a [`Part`].
pub struct PartView {
    pub name: Seq<u8>,
    pub content: Seq<u8>,
}

impl View for Part {
    type V = PartView;

    open spec fn view(&self) -> PartView {
        PartView { name: self.name@, content: self.content@ }
    }
}

/// The views of a list of parts.
pub open spec fn part_views(ps: Seq<Part>) -> Seq<PartView> {
    ps.map_values(|p: Part| p@)
}

/// A part's header block: the name line, a line break, the content-type
/// line.  No trailing line break; the empty line follows separately.
pub open spec fn part_headers(name: Seq<u8>) -> Seq<u8> {
    disp_prefix() + name + seq![34u8] + crlf() + ctype_line()
}

/// The encoding of one part: its boundary line, its header block, the empty
/// line, its payload, and the line break that precedes the next boundary.
pub open spec fn encode_part(b: Seq<u8>, p: PartView) -> Seq<u8> {
    dash_boundary(b) + crlf() + part_headers(p.name) + crlfcrlf() + p.content + crlf()
}

/// The encoding of a whole bundle: each part in order, then the closing
/// boundary line.
pub open spec fn spec_encode(b: Seq<u8>, parts: Seq<PartView>) -> Seq<u8>
    decreases parts.len(),
{
    if parts.len() == 0 {
        dash_boundary(b) + close_suffix()
    } else {
        encode_part(b, parts[0]) + spec_encode(b, parts.subrange(1, parts.len() as int))
    }
}

/// The encoding of the first `i` parts of a bundle, without the close.
pub open spec fn encode_prefix(b: Seq<u8>, parts: Seq<PartView>, i: int) -> Seq<u8>
    decreases i,
{
    if i <= 0 {
        Seq::empty()
    } else {
        encode_prefix(b, parts, i - 1) + encode_part(b, parts[i - 1])
    }
}

/// A bundle's encoding splits at any part index: the first `i` parts,
/// followed by the encoding of the rest.
pub proof fn lemma_encode_split(b: Seq<u8>, parts: Seq<PartView>, i: int)
    requires
        0 <= i <= parts.len(),
    ensures
        spec_encode(b, parts) == encode_prefix(b, parts, i) + spec_encode(
            b,
            parts.subrange(i, parts.len() as int),
        ),
    decreases i,
{
    if i == 0 {
        assert(parts.subrange(0, parts.len() as int) =~= parts);
        assert(encode_prefix(b, parts, 0) + spec_encode(b, parts) =~= spec_encode(b, parts));
    } else {
        lemma_encode_split(b, parts, i - 1);
        let rest_prev = parts.subrange(i - 1, parts.len() as int);
        let rest = parts.subrange(i, parts.len() as int);
        assert(rest_prev.subrange(1, rest_prev.len() as int) =~= rest);
        assert(rest_prev[0] == parts[i - 1]);
        assert(spec_encode(b, rest_prev) == encode_part(b, parts[i - 1]) + spec_encode(b, rest));
        assert(encode_prefix(b, parts, i - 1) + (encode_part(b, parts[i - 1]) + spec_encode(
            b,
            rest,
        )) =~= (encode_prefix(b, parts, i - 1) + encode_part(b, parts[i - 1])) + spec_encode(
            b,
            rest,
        ));
    }
}

/// Appends all of `s` to `out`.
fn push_bytes(out: &mut Vec<u8>, s: &Vec<u8>)
    ensures
        final(out)@ == old(out)@ + s@,
{
    let n = s.len();
    let mut k: usize = 0;
    while k < n
        invariant
            n == s@.len(),
            0 <= k <= n,
            out@ == old(out)@ + s@.subrange(0, k as int),
        decreases n - k,
    {
        out.push(s[k]);
        assert(out@ =~= old(out)@ + s@.subrange(0, k + 1 as int));
        k += 1;
    }
    assert(out@ =~= old(out)@ + s@);
}

/// The line terminator as a vector.
fn crlf_vec() -> (r: Vec<u8>)
    ensures
        r@ == crlf(),
{
    let v: Vec<u8> = vec![13u8, 10u8];
    assert(v@ =~= crlf());
    v
}

/// The empty line as a vector.
fn crlfcrlf_vec() -> (r: Vec<u8>)
    ensures
        r@ == crlfcrlf(),
{
    let v: Vec<u8> = vec![13u8, 10u8, 13u8, 10u8];
    assert(v@ =~= crlfcrlf());
    v
}

/// The name header line, up to its opening quote, as a vector.
fn disp_prefix_vec() -> (r: Vec<u8>)
    ensures
        r@ == disp_prefix(),
{
    let v: Vec<u8> = vec![
        67u8, 111u8, 110u8, 116u8, 101u8, 110u8, 116u8, 45u8, 68u8, 105u8, 115u8, 112u8, 111u8,
        115u8, 105u8, 116u8, 105u8, 111u8, 110u8, 58u8, 32u8, 102u8, 111u8, 114u8, 109u8, 45u8,
        100u8, 97u8, 116u8, 97u8, 59u8, 32u8, 110u8, 97u8, 109u8, 101u8, 61u8, 34u8,
    ];
    assert(v@ =~= disp_prefix());
    v
}

/// The content-type line as a vector.
fn ctype_line_vec() -> (r: Vec<u8>)
    ensures
        r@ == ctype_line(),
{
    let v: Vec<u8> = vec![
        67u8, 111u8, 110u8, 116u8, 101u8, 110u8, 116u8, 45u8, 84u8, 121u8, 112u8, 101u8, 58u8,
        32u8, 97u8, 112u8, 112u8, 108u8, 105u8, 99u8, 97u8, 116u8, 105u8, 111u8, 110u8, 47u8,
        100u8, 105u8, 99u8, 111u8, 109u8,
    ];
    assert(v@ =~= ctype_line());
    v
}

/// A boundary line as a vector.
fn dash_boundary_vec(b: &Vec<u8>) -> (r: Vec<u8>)
    ensures
        r@ == dash_boundary(b@),
{
    let mut v: Vec<u8> = vec![45u8, 45u8];
    assert(v@ =~= dash_dash());
    push_bytes(&mut v, b);
    v
}

/// A payload delimiter as a vector.
fn delim_vec(b: &Vec<u8>) -> (r: Vec<u8>)
    ensures
        r@ == delim(b@),
{
    let mut v: Vec<u8> = vec![13u8, 10u8, 45u8, 45u8];
    assert(v@ =~= crlf() + dash_dash());
    push_bytes(&mut v, b);
    assert(v@ =~= delim(b@));
    v
}

/// Encodes a list of parts into one bundle body delimited by `boundary`.
/// The body is exactly the specification-level encoding; the caller sends it
/// with a content type that declares the same boundary.
pub fn encode(boundary: &Vec<u8>, parts: &Vec<Part>) -> (r: Vec<u8>)
    ensures
        r@ == spec_encode(boundary@, part_views(parts@)),
{
    let ghost views = part_views(parts@);
    let mut out: Vec<u8> = Vec::new();
    let n = parts.len();
    let mut i: usize = 0;
    assert(out@ =~= encode_prefix(boundary@, views, 0));
    while i < n
        invariant
            n == parts@.len(),
            views == part_views(parts@),
            0 <= i <= n,
            out@ == encode_prefix(boundary@, views, i as int),
        decreases n - i,
    {
        let ghost before = out@;
        let db = dash_boundary_vec(boundary);
        push_bytes(&mut out, &db);
        let lb = crlf_vec();
        push_bytes(&mut out, &lb);
        let dp = disp_prefix_vec();
        push_bytes(&mut out, &dp);
        push_bytes(&mut out, &parts[i].name);
        out.push(34u8);
        push_bytes(&mut out, &lb);
        let ct = ctype_line_vec();
        push_bytes(&mut out, &ct);
        let cc = crlfcrlf_vec();
        push_bytes(&mut out, &cc);
        push_bytes(&mut out, &parts[i].content);
        push_bytes(&mut out, &lb);
        assert(views[i as int] == parts@[i as int]@);
        assert(out@ =~= before + encode_part(boundary@, views[i as int]));
        i += 1;
    }
    let db = dash_boundary_vec(boundary);
    push_bytes(&mut out, &db);
    let cs: Vec<u8> = vec![45u8, 45u8, 13u8, 10u8];
    assert(cs@ =~= close_suffix());
    push_bytes(&mut out, &cs);
    proof {
        lemma_encode_split(boundary@, views, views.len() as int);
        assert(views.subrange(views.len() as int, views.len() as int) =~= Seq::empty());
    }
    assert(out@ =~= spec_encode(boundary@, views));
    out
}

/// The bytes that introduce one part: its boundary line, its header block
/// and the empty line.  A sender that streams payloads writes this, then the
/// payload, then [`part_epilogue`], for each part, and [`close_line`] last;
/// by [`lemma_encode_part_framing`] that is byte for byte the bundle
/// encoding.
pub fn part_prologue(boundary: &Vec<u8>, name: &Vec<u8>) -> (r: Vec<u8>)
    ensures
        r@ == dash_boundary(boundary@) + crlf() + part_headers(name@) + crlfcrlf(),
{
    let mut out: Vec<u8> = Vec::new();
    let db = dash_boundary_vec(boundary);
    push_bytes(&mut out, &db);
    let lb = crlf_vec();
    push_bytes(&mut out, &lb);
    let dp = disp_prefix_vec();
    push_bytes(&mut out, &dp);
    push_bytes(&mut out, name);
    out.push(34u8);
    push_bytes(&mut out, &lb);
    let ct = ctype_line_vec();
    push_bytes(&mut out, &ct);
    let cc = crlfcrlf_vec();
    push_bytes(&mut out, &cc);
    assert(out@ =~= dash_boundary(boundary@) + crlf() + part_headers(name@) + crlfcrlf());
    out
}

/// The line break that ends a part's payload, before the next boundary
/// line.
pub fn part_epilogue() -> (r: Vec<u8>)
    ensures
        r@ == crlf(),
{
    crlf_vec()
}

/// The closing boundary line of a bundle.
pub fn close_line(boundary: &Vec<u8>) -> (r: Vec<u8>)
    ensures
        r@ == dash_boundary(boundary@) + close_suffix(),
{
    let mut out = dash_boundary_vec(boundary);
    let cs: Vec<u8> = vec![45u8, 45u8, 13u8, 10u8];
    assert(cs@ =~= close_suffix());
    push_bytes(&mut out, &cs);
    out
}

/// One part's encoding is its prologue, its payload and its epilogue.
pub proof fn lemma_encode_part_framing(b: Seq<u8>, p: PartView)
    ensures
        encode_part(b, p) == (dash_boundary(b) + crlf() + part_headers(p.name) + crlfcrlf())
            + p.content + crlf(),
{
    assert(encode_part(b, p) =~= (dash_boundary(b) + crlf() + part_headers(p.name) + crlfcrlf())
        + p.content + crlf());
}

/// The filename extension given to every part of an upload: `.dcm`.
pub open spec fn dcm_ext() -> Seq<u8> {
    seq![46u8, 100u8, 99u8, 109u8]
}

/// The part name under which one instance is uploaded: the instance key
/// followed by the `.dcm` extension.
pub open spec fn spec_part_name(instance: Seq<u8>) -> Seq<u8> {
    instance + dcm_ext()
}

/// Builds the part name of one instance key.
pub fn part_name(instance_key: &str) -> (r: Vec<u8>)
    ensures
        r@ == spec_part_name(encode_utf8(instance_key@)),
{
    let mut r = instance_key.as_bytes_vec();
    let ext: Vec<u8> = vec![46u8, 100u8, 99u8, 109u8];
    assert(ext@ =~= dcm_ext());
    push_bytes(&mut r, &ext);
    r
}

/// Builds the upload parts of one study: one part per instance, named
/// `<instanceKey>.dcm`, carrying that instance's file bytes in order.
pub fn upload_parts(instance_keys: &Vec<String>, contents: &Vec<Vec<u8>>) -> (r: Vec<Part>)
    requires
        instance_keys@.len() == contents@.len(),
    ensures
        r@.len() == instance_keys@.len(),
        forall|i: int|
            0 <= i < r@.len() ==> #[trigger] r@[i]@.name == spec_part_name(
                encode_utf8(instance_keys@[i]@),
            ) && r@[i]@.content == contents@[i]@,
{
    let n = instance_keys.len();
    let mut r: Vec<Part> = Vec::new();
    let mut i: usize = 0;
    while i < n
        invariant
            n == instance_keys@.len(),
            instance_keys@.len() == contents@.len(),
            0 <= i <= n,
            r@.len() == i,
            forall|j: int|
                0 <= j < i ==> #[trigger] r@[j]@.name == spec_part_name(
                    encode_utf8(instance_keys@[j]@),
                ) && r@[j]@.content == contents@[j]@,
        decreases n - i,
    {
        let name = part_name(instance_keys[i].as_str());
        let content = contents[i].clone();
        assert(content@ == contents@[i as int]@);
        r.push(Part { name, content });
        i += 1;
    }
    r
}


/// The name carried in a header block: the bytes between the block's first
/// pair of quotes, or empty when no such pair exists.
pub open spec fn header_name(hdr: Seq<u8>) -> Seq<u8> {
    match find_from(hdr, seq![34u8], 0) {
        Option::None => Seq::empty(),
        Option::Some(q1) => match find_from(hdr, seq![34u8], q1 + 1) {
            Option::None => Seq::empty(),
            Option::Some(q2) => hdr.subrange(q1 + 1, q2),
        },
    }
}

/// What decoding a body yields from position `pos` onward, `pos` standing
/// right after a boundary line.  Two dashes close the bundle (anything after
/// them is epilogue and ignored); a line break opens a part: its header block
/// runs to the first empty line, its payload to the next delimiter.  A
/// missing empty line or delimiter is a truncated part; anything else is a
/// malformed bundle.
pub open spec fn decode_parts(b: Seq<u8>, body: Seq<u8>, pos: int) -> Result<
    Seq<PartView>,
    MilvueError,
>
    decreases body.len() - pos,
        via decode_parts_decreases
{
    if pos + 2 <= body.len() && body.subrange(pos, pos + 2) == dash_dash() {
        Result::Ok(Seq::empty())
    } else if pos + 2 <= body.len() && body.subrange(pos, pos + 2) == crlf() {
        match find_from(body, crlfcrlf(), pos + 2) {
            Option::None => Result::Err(MilvueError::TruncatedPart),
            Option::Some(hdr_end) => {
                let name = header_name(body.subrange(pos + 2, hdr_end));
                let cs = hdr_end + 4;
                match find_from(body, delim(b), cs) {
                    Option::None => Result::Err(MilvueError::TruncatedPart),
                    Option::Some(ce) => {
                        let content = body.subrange(cs, ce);
                        match decode_parts(b, body, ce + delim(b).len()) {
                            Result::Ok(rest) => Result::Ok(
                                seq![PartView { name, content }] + rest,
                            ),
                            Result::Err(e) => Result::Err(e),
                        }
                    },
                }
            },
        }
    } else {
        Result::Err(MilvueError::MalformedBundle)
    }
}

#[via_fn]
proof fn decode_parts_decreases(b: Seq<u8>, body: Seq<u8>, pos: int) {
    if pos + 2 <= body.len() && body.subrange(pos, pos + 2) != dash_dash() && body.subrange(
        pos,
        pos + 2,
    ) == crlf() {
        if let Option::Some(hdr_end) = find_from(body, crlfcrlf(), pos + 2) {
            lemma_find_from_some(body, crlfcrlf(), pos + 2, hdr_end);
            if let Option::Some(ce) = find_from(body, delim(b), hdr_end + 4) {
                lemma_find_from_some(body, delim(b), hdr_end + 4, ce);
            }
        }
    }
}

/// What decoding a whole body against boundary `b` yields: the body must
/// open with the boundary line, and its parts follow [`decode_parts`].
pub open spec fn spec_decode(b: Seq<u8>, body: Seq<u8>) -> Result<Seq<PartView>, MilvueError> {
    if match_at(body, dash_boundary(b), 0) {
        decode_parts(b, body, dash_boundary(b).len() as int)
    } else {
        Result::Err(MilvueError::MalformedBundle)
    }
}

/// Extracts the name between the first pair of quotes of a header block.
fn header_name_of(hdr: &Vec<u8>) -> (r: Vec<u8>)
    ensures
        r@ == header_name(hdr@),
{
    let n = hdr.len();
    let q: Vec<u8> = vec![34u8];
    assert(q@ =~= seq![34u8]);
    match find_sub(hdr, &q, 0) {
        None => Vec::new(),
        Some(q1) => {
            proof {
                lemma_find_from_some(hdr@, q@, 0, q1 as int);
            }
            match find_sub(hdr, &q, q1 + 1) {
                None => Vec::new(),
                Some(q2) => {
                    proof {
                        lemma_find_from_some(hdr@, q@, q1 + 1 as int, q2 as int);
                    }
                    sub_vec(hdr, q1 + 1, q2)
                },
            }
        },
    }
}

/// Decodes one bundle body against `boundary`.  Returns the parts in order;
/// a body that does not open with the boundary line is a malformed bundle,
/// and a part whose empty line or closing delimiter is missing is truncated.
pub fn decode(boundary: &Vec<u8>, body: &Vec<u8>) -> (r: Result<Vec<Part>, MilvueError>)
    ensures
        match r {
            Ok(parts) => spec_decode(boundary@, body@) == Result::<
                Seq<PartView>,
                MilvueError,
            >::Ok(part_views(parts@)),
            Err(e) => spec_decode(boundary@, body@) == Result::<Seq<PartView>, MilvueError>::Err(
                e,
            ),
        },
{
    let db = dash_boundary_vec(boundary);
    let n = body.len();
    if db.len() > n {
        assert(!match_at(body@, dash_boundary(boundary@), 0));
        return Err(MilvueError::MalformedBundle);
    }
    if !is_match_at(body, &db, 0) {
        return Err(MilvueError::MalformedBundle);
    }
    let delim_v = delim_vec(boundary);
    let cc = crlfcrlf_vec();
    let mut pos: usize = db.len();
    let mut acc: Vec<Part> = Vec::new();
    let ghost pos0: int = pos as int;
    assert(part_views(acc@) =~= Seq::empty());
    assert(decode_parts(boundary@, body@, pos0) == match decode_parts(
        boundary@,
        body@,
        pos as int,
    ) {
        Result::Ok(rest) => Result::<Seq<PartView>, MilvueError>::Ok(part_views(acc@) + rest),
        Result::Err(e) => Result::<Seq<PartView>, MilvueError>::Err(e),
    }) by {
        if let Result::Ok(rest) = decode_parts(boundary@, body@, pos0) {
            assert(part_views(acc@) + rest =~= rest);
        }
    }
    loop
        invariant
            n == body@.len(),
            0 <= pos <= n,
            db@ == dash_boundary(boundary@),
            delim_v@ == delim(boundary@),
            cc@ == crlfcrlf(),
            match_at(body@, dash_boundary(boundary@), 0),
            pos0 == dash_boundary(boundary@).len() as int,
            decode_parts(boundary@, body@, pos0) == match decode_parts(
                boundary@,
                body@,
                pos as int,
            ) {
                Result::Ok(rest) => Result::<Seq<PartView>, MilvueError>::Ok(
                    part_views(acc@) + rest,
                ),
                Result::Err(e) => Result::<Seq<PartView>, MilvueError>::Err(e),
            },
        decreases n - pos,
    {
        if n - pos < 2 {
            return Err(MilvueError::MalformedBundle);
        }
        let b0 = body[pos];
        let b1 = body[pos + 1];
        if b0 == 45u8 && b1 == 45u8 {
            assert(body@.subrange(pos as int, pos + 2 as int) =~= dash_dash());
            assert(decode_parts(boundary@, body@, pos as int) == Result::<
                Seq<PartView>,
                MilvueError,
            >::Ok(Seq::empty()));
            assert(part_views(acc@) + Seq::empty() =~= part_views(acc@));
            return Ok(acc);
        }
        if !(b0 == 13u8 && b1 == 10u8) {
            assert(body@.subrange(pos as int, pos + 2 as int) != dash_dash()) by {
                if b0 == 45u8 {
                    assert(body@.subrange(pos as int, pos + 2 as int)[1] != dash_dash()[1]);
                } else {
                    assert(body@.subrange(pos as int, pos + 2 as int)[0] != dash_dash()[0]);
                }
            }
            assert(body@.subrange(pos as int, pos + 2 as int) != crlf()) by {
                if b0 == 13u8 {
                    assert(body@.subrange(pos as int, pos + 2 as int)[1] != crlf()[1]);
                } else {
                    assert(body@.subrange(pos as int, pos + 2 as int)[0] != crlf()[0]);
                }
            }
            return Err(MilvueError::MalformedBundle);
        }
        assert(body@.subrange(pos as int, pos + 2 as int) =~= crlf());
        assert(body@.subrange(pos as int, pos + 2 as int) != dash_dash()) by {
            assert(body@.subrange(pos as int, pos + 2 as int)[0] != dash_dash()[0]);
        }
        let hdr_end = match find_sub(body, &cc, pos + 2) {
            None => {
                return Err(MilvueError::TruncatedPart);
            },
            Some(m) => m,
        };
        proof {
            lemma_find_from_some(body@, crlfcrlf(), pos + 2 as int, hdr_end as int);
        }
        let hdr = sub_vec(body, pos + 2, hdr_end);
        let name = header_name_of(&hdr);
        let cs = hdr_end + 4;
        let ce = match find_sub(body, &delim_v, cs) {
            None => {
                return Err(MilvueError::TruncatedPart);
            },
            Some(m) => m,
        };
        proof {
            lemma_find_from_some(body@, delim(boundary@), cs as int, ce as int);
        }
        let content = sub_vec(body, cs, ce);
        let ghost pv = PartView {
            name: header_name(body@.subrange(pos + 2 as int, hdr_end as int)),
            content: body@.subrange(cs as int, ce as int),
        };
        let ghost old_views = part_views(acc@);
        let ghost old_pos: int = pos as int;
        acc.push(Part { name, content });
        pos = ce + delim_v.len();
        proof {
            assert(part_views(acc@) =~= old_views + seq![pv]);
            assert(decode_parts(boundary@, body@, old_pos) == match decode_parts(
                boundary@,
                body@,
                pos as int,
            ) {
                Result::Ok(rest) => Result::<Seq<PartView>, MilvueError>::Ok(seq![pv] + rest),
                Result::Err(e) => Result::<Seq<PartView>, MilvueError>::Err(e),
            });
            if let Result::Ok(rest) = decode_parts(boundary@, body@, pos as int) {
                assert((old_views + seq![pv]) + rest =~= old_views + (seq![pv] + rest));
            }
        }
    }
}

/// The bytes of `boundary=`, the token that introduces a boundary inside a
/// content-type header value.
pub open spec fn boundary_key() -> Seq<u8> {
    seq![98u8, 111u8, 117u8, 110u8, 100u8, 97u8, 114u8, 121u8, 61u8]
}

/// The boundary a content-type header value declares.  No occurrence of
/// `boundary=` declares none: the service has no output for this request.
/// Exactly one occurrence declares everything after it.  More than one is a
/// malformed declaration, a hard error: a real bundle could otherwise be
/// dropped in silence as "no output".
pub open spec fn spec_extract_boundary(ct: Seq<u8>) -> Result<Option<Seq<u8>>, MilvueError> {
    match find_from(ct, boundary_key(), 0) {
        Option::None => Result::Ok(Option::None),
        Option::Some(m) => match find_from(ct, boundary_key(), m + boundary_key().len()) {
            Option::Some(m2) => Result::Err(MilvueError::MalformedBundle),
            Option::None => Result::Ok(
                Option::Some(ct.subrange(m + boundary_key().len(), ct.len() as int)),
            ),
        },
    }
}

/// Extracts the declared boundary from a content-type header value: absent,
/// declared once, or declared more than once, which is malformed.
pub fn extract_boundary(content_type: &Vec<u8>) -> (r: Result<Option<Vec<u8>>, MilvueError>)
    ensures
        match r {
            Ok(opt) => match opt {
                Option::Some(b) => spec_extract_boundary(content_type@) == Result::<
                    Option<Seq<u8>>,
                    MilvueError,
                >::Ok(Option::Some(b@)),
                Option::None => spec_extract_boundary(content_type@) == Result::<
                    Option<Seq<u8>>,
                    MilvueError,
                >::Ok(Option::None),
            },
            Err(e) => spec_extract_boundary(content_type@) == Result::<
                Option<Seq<u8>>,
                MilvueError,
            >::Err(e),
        },
{
    let n = content_type.len();
    let key: Vec<u8> = vec![98u8, 111u8, 117u8, 110u8, 100u8, 97u8, 114u8, 121u8, 61u8];
    assert(key@ =~= boundary_key());
    match find_sub(content_type, &key, 0) {
        None => Ok(None),
        Some(m) => {
            proof {
                lemma_find_from_some(content_type@, boundary_key(), 0, m as int);
            }
            match find_sub(content_type, &key, m + 9) {
                Some(_) => Err(MilvueError::MalformedBundle),
                None => Ok(Some(sub_vec(content_type, m + 9, content_type.len()))),
            }
        },
    }
}

/// Decodes one download response.  A content-type value that declares no
/// boundary at all means the service has no output for this request: the
/// result is empty and that is not an error.  A declaration that is present
/// but malformed, and any failure of the decode itself, is a hard error.
pub fn decode_response(content_type: &Vec<u8>, body: &Vec<u8>) -> (r: Result<
    Option<Vec<Part>>,
    MilvueError,
>)
    ensures
        match spec_extract_boundary(content_type@) {
            Result::Ok(ob) => match ob {
                Option::None => r matches Ok(opt) && opt is None,
                Option::Some(b) => match spec_decode(b, body@) {
                    Result::Ok(views) => r matches Ok(opt) && opt matches Some(parts)
                        && part_views(parts@) == views,
                    Result::Err(e) => r matches Err(e2) && e2 == e,
                },
            },
            Result::Err(e) => r matches Err(e2) && e2 == e,
        },
{
    match extract_boundary(content_type) {
        Ok(None) => Ok(None),
        Ok(Some(boundary)) => match decode(&boundary, body) {
            Ok(parts) => Ok(Some(parts)),
            Err(e) => Err(e),
        },
        Err(e) => Err(e),
    }
}


/// A well-formed part name: no carriage return and no quote, either of which
/// would end the name header early.
pub open spec fn wf_part_name(name: Seq<u8>) -> bool {
    forall|i: int| 0 <= i < name.len() ==> name[i] != 13u8 && name[i] != 34u8
}

/// A payload that contains no occurrence of the payload delimiter of
/// boundary `b`, not even one that runs over into the delimiter written
/// right after it.
pub open spec fn content_delim_free(content: Seq<u8>, b: Seq<u8>) -> bool {
    forall|i: int| 0 <= i < content.len() ==> !match_at(content + delim(b), delim(b), i)
}

/// Parts that encode unambiguously against boundary `b`: every name well
/// formed, no payload containing the delimiter.  A sender picks the boundary
/// so that this holds of the payloads it carries.
pub open spec fn wf_parts(b: Seq<u8>, parts: Seq<PartView>) -> bool {
    forall|i: int|
        0 <= i < parts.len() ==> wf_part_name(#[trigger] parts[i].name) && content_delim_free(
            parts[i].content,
            b,
        )
}

/// A payload with no carriage return at all never contains a delimiter.
pub proof fn lemma_cr_free_content(content: Seq<u8>, b: Seq<u8>)
    requires
        forall|i: int| 0 <= i < content.len() ==> content[i] != 13u8,
    ensures
        content_delim_free(content, b),
{
    assert forall|i: int|
        0 <= i < content.len() implies !match_at(content + delim(b), delim(b), i) by {
        let w = content + delim(b);
        assert(delim(b)[0] == 13u8);
        if match_at(w, delim(b), i) {
            assert(w.subrange(i, i + delim(b).len())[0] == delim(b)[0]);
            assert(w[i] == 13u8);
            assert(w[i] == content[i]);
        }
    }
}

/// The shape of the two header literals: their lengths, the quote that ends
/// the name line's prefix, and the absence of carriage returns and of other
/// quotes.
proof fn lemma_literal_bytes()
    ensures
        disp_prefix().len() == 38,
        disp_prefix()[37] == 34u8,
        forall|i: int| 0 <= i < 38 ==> disp_prefix()[i] != 13u8,
        forall|i: int| 0 <= i < 37 ==> disp_prefix()[i] != 34u8,
        ctype_line().len() == 31,
        ctype_line()[0] == 67u8,
        forall|i: int| 0 <= i < 31 ==> ctype_line()[i] != 13u8 && ctype_line()[i] != 34u8,
{
}

/// Inside a header block followed by its empty line, the first empty line
/// starts exactly at the end of the block.
proof fn lemma_headers_no_early_break(name: Seq<u8>)
    requires
        wf_part_name(name),
    ensures
        forall|k: int|
            0 <= k < part_headers(name).len() ==> !match_at(
                part_headers(name) + crlfcrlf(),
                crlfcrlf(),
                k,
            ),
{
    lemma_literal_bytes();
    let h = part_headers(name);
    let w = h + crlfcrlf();
    let nl = name.len() as int;
    let cr_pos = 39 + nl;
    assert(h.len() == 72 + nl);
    assert forall|k: int| 0 <= k < h.len() && k != cr_pos implies h[k] != 13u8 by {
        if k < 38 {
            assert(h[k] == disp_prefix()[k]);
        } else if k < 38 + nl {
            assert(h[k] == name[k - 38]);
        } else if k == 38 + nl {
            assert(h[k] == 34u8);
        } else if k == cr_pos + 1 {
            assert(h[k] == 10u8);
        } else {
            assert(h[k] == ctype_line()[k - 41 - nl]);
        }
    }
    assert forall|k: int| 0 <= k < h.len() implies !match_at(w, crlfcrlf(), k) by {
        if k == cr_pos {
            if match_at(w, crlfcrlf(), k) {
                assert(w.subrange(k, k + 4)[2] == crlfcrlf()[2]);
                assert(w[k + 2] == 13u8);
                assert(w[k + 2] == h[k + 2]);
                assert(h[k + 2] == ctype_line()[0]);
            }
        } else {
            if match_at(w, crlfcrlf(), k) {
                assert(w.subrange(k, k + 4)[0] == crlfcrlf()[0]);
                assert(w[k] == 13u8);
                assert(w[k] == h[k]);
            }
        }
    }
}

/// The name written into a header block is the name read back out of it.
proof fn lemma_headers_name(name: Seq<u8>)
    requires
        wf_part_name(name),
    ensures
        header_name(part_headers(name)) == name,
{
    lemma_literal_bytes();
    let h = part_headers(name);
    let nl = name.len() as int;
    let q = seq![34u8];
    assert(h.len() == 72 + nl);
    assert(h[37] == disp_prefix()[37]);
    assert(h.subrange(37, 38) =~= q);
    assert(match_at(h, q, 37));
    assert forall|i: int| 0 <= i < 37 implies !match_at(h, q, i) by {
        assert(h[i] == disp_prefix()[i]);
        if match_at(h, q, i) {
            assert(h.subrange(i, i + 1)[0] == q[0]);
        }
    }
    lemma_find_from_exact(h, q, 0, 37);
    assert(h[38 + nl] == 34u8);
    assert(h.subrange(38 + nl, 39 + nl) =~= q);
    assert(match_at(h, q, 38 + nl));
    assert forall|i: int| 38 <= i < 38 + nl implies !match_at(h, q, i) by {
        assert(h[i] == name[i - 38]);
        if match_at(h, q, i) {
            assert(h.subrange(i, i + 1)[0] == q[0]);
        }
    }
    lemma_find_from_exact(h, q, 38, 38 + nl);
    assert(h.subrange(38, 38 + nl) =~= name);
}

/// The encoding of a bundle after its leading boundary line.
pub open spec fn tail_encode(b: Seq<u8>, parts: Seq<PartView>) -> Seq<u8>
    decreases parts.len(),
{
    if parts.len() == 0 {
        close_suffix()
    } else {
        crlf() + part_headers(parts[0].name) + crlfcrlf() + parts[0].content + crlf()
            + dash_boundary(b) + tail_encode(b, parts.subrange(1, parts.len() as int))
    }
}

/// A bundle's encoding is its leading boundary line followed by its tail.
pub proof fn lemma_encode_as_tail(b: Seq<u8>, parts: Seq<PartView>)
    ensures
        spec_encode(b, parts) == dash_boundary(b) + tail_encode(b, parts),
    decreases parts.len(),
{
    if parts.len() == 0 {
        assert(spec_encode(b, parts) =~= dash_boundary(b) + tail_encode(b, parts));
    } else {
        let rest = parts.subrange(1, parts.len() as int);
        lemma_encode_as_tail(b, rest);
        assert(spec_encode(b, parts) =~= dash_boundary(b) + tail_encode(b, parts));
    }
}

/// Decoding the tail of an encoded bundle yields back its parts.
proof fn lemma_decode_tail(b: Seq<u8>, parts: Seq<PartView>, body: Seq<u8>, pos: int)
    requires
        wf_parts(b, parts),
        0 <= pos <= body.len(),
        body.subrange(pos, body.len() as int) == tail_encode(b, parts),
    ensures
        decode_parts(b, body, pos) == Result::<Seq<PartView>, MilvueError>::Ok(parts),
    decreases parts.len(),
{
    let t = tail_encode(b, parts);
    assert(t.len() == body.len() - pos);
    if parts.len() == 0 {
        lemma_suffix_subrange(body, t, pos, 0, 2);
        assert(t.subrange(0, 2) =~= dash_dash());
        assert(body.subrange(pos, pos + 2) == dash_dash());
        assert(decode_parts(b, body, pos) == Result::<Seq<PartView>, MilvueError>::Ok(
            Seq::empty(),
        ));
        assert(parts =~= Seq::<PartView>::empty());
    } else {
        let p = parts[0];
        let rest = parts.subrange(1, parts.len() as int);
        let hb = part_headers(p.name);
        let hbl = hb.len() as int;
        let ctl = p.content.len() as int;
        assert(t == crlf() + hb + crlfcrlf() + p.content + crlf() + dash_boundary(b)
            + tail_encode(b, rest));
        let off_rest = 10 + hbl + ctl + (b.len() as int);
        assert(wf_part_name(p.name) && content_delim_free(p.content, b));

        assert(t.subrange(0, 2) =~= crlf());
        assert(t.subrange(2, 2 + hbl) =~= hb);
        assert(t.subrange(2 + hbl, 6 + hbl) =~= crlfcrlf());
        assert(t.subrange(2, 6 + hbl) =~= hb + crlfcrlf());
        assert(t.subrange(6 + hbl, 6 + hbl + ctl) =~= p.content);
        assert(t.subrange(6 + hbl + ctl, off_rest) =~= delim(b));
        assert(t.subrange(6 + hbl, off_rest) =~= p.content + delim(b));
        assert(t.subrange(off_rest, t.len() as int) =~= tail_encode(b, rest));

        let hdr_start = pos + 2;
        let hdr_end = pos + 2 + hbl;
        let cs = hdr_end + 4;
        let ce = cs + ctl;
        let next = ce + delim(b).len() as int;
        assert(next == pos + off_rest);

        lemma_suffix_subrange(body, t, pos, 0, 2);
        assert(body.subrange(pos, pos + 2) == crlf());
        assert(body.subrange(pos, pos + 2) != dash_dash()) by {
            assert(crlf()[0] != dash_dash()[0]);
        }

        lemma_suffix_subrange(body, t, pos, 2 + hbl, 6 + hbl);
        assert(match_at(body, crlfcrlf(), hdr_end));
        let w = hb + crlfcrlf();
        lemma_suffix_subrange(body, t, pos, 2, 6 + hbl);
        assert(body.subrange(hdr_start, hdr_start + w.len() as int) == w);
        lemma_headers_no_early_break(p.name);
        assert forall|i: int| hdr_start <= i < hdr_end implies !match_at(
            body,
            crlfcrlf(),
            i,
        ) by {
            lemma_match_at_in_window(body, w, crlfcrlf(), hdr_start, i - hdr_start);
        }
        lemma_find_from_exact(body, crlfcrlf(), hdr_start, hdr_end);

        lemma_suffix_subrange(body, t, pos, 2, 2 + hbl);
        assert(body.subrange(hdr_start, hdr_end) == hb);
        lemma_headers_name(p.name);
        assert(header_name(body.subrange(hdr_start, hdr_end)) == p.name);

        lemma_suffix_subrange(body, t, pos, 6 + hbl + ctl, off_rest);
        assert(match_at(body, delim(b), ce));
        let w2 = p.content + delim(b);
        lemma_suffix_subrange(body, t, pos, 6 + hbl, off_rest);
        assert(body.subrange(cs, cs + w2.len() as int) == w2);
        assert forall|i: int| cs <= i < ce implies !match_at(body, delim(b), i) by {
            lemma_match_at_in_window(body, w2, delim(b), cs, i - cs);
        }
        lemma_find_from_exact(body, delim(b), cs, ce);

        lemma_suffix_subrange(body, t, pos, 6 + hbl, 6 + hbl + ctl);
        assert(body.subrange(cs, ce) == p.content);

        lemma_suffix_subrange(body, t, pos, off_rest, t.len() as int);
        assert(body.subrange(next, body.len() as int) == tail_encode(b, rest));
        assert(wf_parts(b, rest)) by {
            assert forall|i: int|
                0 <= i < rest.len() implies wf_part_name(#[trigger] rest[i].name)
                && content_delim_free(rest[i].content, b) by {
                assert(rest[i] == parts[i + 1]);
            }
        }
        lemma_decode_tail(b, rest, body, next);

        let pv = PartView {
            name: header_name(body.subrange(hdr_start, hdr_end)),
            content: body.subrange(cs, ce),
        };
        assert(pv == p);
        assert(seq![p] + rest =~= parts);
        assert(decode_parts(b, body, pos) == Result::<Seq<PartView>, MilvueError>::Ok(
            seq![pv] + rest,
        ));
    }
}

/// Round trip: decoding an encoded bundle against its own boundary yields
/// back exactly the parts that were encoded, in order.
pub proof fn lemma_round_trip(b: Seq<u8>, parts: Seq<PartView>)
    requires
        wf_parts(b, parts),
    ensures
        spec_decode(b, spec_encode(b, parts)) == Result::<Seq<PartView>, MilvueError>::Ok(parts),
{
    let body = spec_encode(b, parts);
    lemma_encode_as_tail(b, parts);
    let db = dash_boundary(b);
    assert(body.subrange(0, db.len() as int) =~= db);
    assert(match_at(body, db, 0));
    assert(body.subrange(db.len() as int, body.len() as int) =~= tail_encode(b, parts));
    lemma_decode_tail(b, parts, body, db.len() as int);
}

} // verus!
