//! Canonical JSON encoding of [`LicenseData`] and [`TokenExtra`].
//!
//! License terms travel inside a token's `metadata` string and the typed
//! asset reference inside the `extra` string.  Both use one canonical JSON
//! form: fields in declaration order, no whitespace, `"` and `\` escaped
//! with a backslash, absent optional fields written as `null`.  Control
//! characters are not representable: encoding fails on them and decoding
//! rejects them, so a malformed record always fails closed.  Decoding is
//! the exact inverse of encoding, which is proved below.

use vstd::prelude::*;

use crate::types::LicenseData;
use crate::types::LicenseDataV;
use crate::types::TokenExtra;
use crate::types::TokenExtraV;

verus! {

/// A character that may appear unescaped inside a canonical JSON string.
pub open spec fn plain_char(c: char) -> bool {
    c != '"' && c != '\\' && (c as u32) >= 32
}

/// A sequence free of control characters, hence encodable.
pub open spec fn clean(s: Seq<char>) -> bool {
    forall|i: int| 0 <= i < s.len() ==> (#[trigger] s[i] as u32) >= 32
}

/// An optional sequence free of control characters.
pub open spec fn opt_clean(s: Option<Seq<char>>) -> bool {
    match s {
        Some(v) => clean(v),
        None => true,
    }
}

/// All string fields of the record are encodable.
pub open spec fn license_data_clean(d: LicenseDataV) -> bool {
    opt_clean(d.template) && opt_clean(d.pdf_url)
}

/// The escape of one character.
pub open spec fn esc_char(c: char) -> Seq<char> {
    if c == '"' || c == '\\' {
        seq!['\\', c]
    } else {
        seq![c]
    }
}

/// The escape of a whole sequence.
pub open spec fn esc_str(s: Seq<char>) -> Seq<char>
    decreases s.len(),
{
    if s.len() == 0 {
        Seq::empty()
    } else {
        esc_char(s[0]) + esc_str(s.drop_first())
    }
}

/// Escaping distributes over appending one character at the end.
pub proof fn lemma_esc_str_push(s: Seq<char>, c: char)
    ensures
        esc_str(s.push(c)) == esc_str(s) + esc_char(c),
    decreases s.len(),
{
    if s.len() == 0 {
        assert(s.push(c).drop_first() =~= Seq::<char>::empty());
        assert(s.push(c)[0] == c);
        assert(esc_str(Seq::<char>::empty()) =~= Seq::<char>::empty());
        assert(esc_str(s.push(c)) == esc_char(s.push(c)[0]) + esc_str(s.push(c).drop_first()));
        assert(esc_str(s.push(c)) =~= esc_str(s) + esc_char(c));
    } else {
        assert(s.push(c).drop_first() =~= s.drop_first().push(c));
        assert(s.push(c)[0] == s[0]);
        lemma_esc_str_push(s.drop_first(), c);
        assert(esc_str(s.push(c)) == esc_char(s.push(c)[0]) + esc_str(s.push(c).drop_first()));
        assert(esc_str(s.push(c)) =~= esc_str(s) + esc_char(c));
    }
}

/// A sequence of plain characters escapes to itself.
pub proof fn lemma_esc_str_plain(s: Seq<char>)
    requires
        forall|i: int| 0 <= i < s.len() ==> plain_char(#[trigger] s[i]),
    ensures
        esc_str(s) == s,
    decreases s.len(),
{
    if s.len() == 0 {
        assert(esc_str(s) =~= s);
    } else {
        lemma_esc_str_plain(s.drop_first());
        assert(esc_str(s) =~= s);
    }
}

/// Escaping distributes over concatenation.
pub proof fn lemma_esc_str_concat(a: Seq<char>, b: Seq<char>)
    ensures
        esc_str(a + b) == esc_str(a) + esc_str(b),
    decreases a.len(),
{
    if a.len() == 0 {
        assert(a + b =~= b);
        assert(esc_str(a) =~= Seq::<char>::empty());
        assert(esc_str(a + b) =~= esc_str(a) + esc_str(b));
    } else {
        assert((a + b).drop_first() =~= a.drop_first() + b);
        lemma_esc_str_concat(a.drop_first(), b);
        assert(esc_str(a + b) =~= esc_str(a) + esc_str(b));
    }
}

/// The canonical encoding of a boolean.
pub open spec fn bool_json(b: bool) -> Seq<char> {
    if b {
        "true"@
    } else {
        "false"@
    }
}

/// The canonical encoding of a quoted string.
pub open spec fn str_json(s: Seq<char>) -> Seq<char> {
    seq!['"'] + esc_str(s) + seq!['"']
}

/// The canonical encoding of an optional string field.
pub open spec fn opt_str_json(s: Option<Seq<char>>) -> Seq<char> {
    match s {
        Some(v) => str_json(v),
        None => "null"@,
    }
}

/// The canonical JSON encoding of a license-terms record.
pub open spec fn license_data_json(d: LicenseDataV) -> Seq<char> {
    "{\"i_agree\":"@ + bool_json(d.i_agree) + ",\"perpetuity\":"@ + bool_json(d.perpetuity)
        + ",\"exclusivity\":"@ + bool_json(d.exclusivity) + ",\"personal_use\":"@ + bool_json(
        d.personal_use,
    ) + ",\"commercial_use\":"@ + bool_json(d.commercial_use) + ",\"limited_display_sublicensee\":"@
        + bool_json(d.limited_display_sublicensee) + ",\"template\":"@ + opt_str_json(d.template)
        + ",\"pdf_url\":"@ + opt_str_json(d.pdf_url) + "}"@
}

/// The canonical JSON encoding of a typed asset reference.
pub open spec fn token_extra_json(t: TokenExtraV) -> Seq<char> {
    "{\"asset_id_path\":"@ + str_json(t.asset_id_path) + "}"@
}

/// Appends the escaped form of `s` to `out`; fails exactly when `s`
/// holds a control character, in which case `out` is left in an
/// unspecified state and must be discarded.
fn escape_into(out: &mut String, s: &str) -> (ok: bool)
    ensures
        ok == clean(s@),
        ok ==> final(out)@ == old(out)@ + esc_str(s@),
{
    let ghost out0 = old(out)@;
    let len = s.unicode_len();
    let mut start: usize = 0;
    let mut i: usize = 0;
    while i < len
        invariant
            0 <= start <= i <= len,
            len == s@.len(),
            out@ == out0 + esc_str(s@.take(start as int)),
            forall|j: int| start <= j < i ==> plain_char(#[trigger] s@[j]),
            forall|j: int| 0 <= j < i ==> (#[trigger] s@[j] as u32) >= 32,
        decreases len - i,
    {
        let c = s.get_char(i);
        if c == '"' || c == '\\' {
            let run = s.substring_char(start, i);
            out.append(run);
            if c == '"' {
                out.append("\\\"");
            } else {
                out.append("\\\\");
            }
            proof {
                let pre = s@.take(start as int);
                let mid = s@.subrange(start as int, i as int);
                lemma_esc_str_plain(mid);
                lemma_esc_str_concat(pre, mid);
                assert(pre + mid =~= s@.take(i as int));
                lemma_esc_str_push(s@.take(i as int), c);
                assert(s@.take(i as int).push(c) =~= s@.take(i + 1 as int));
                if c == '"' {
                    reveal_strlit("\\\"");
                    assert(esc_char(c) =~= "\\\""@);
                } else {
                    reveal_strlit("\\\\");
                    assert(esc_char(c) =~= "\\\\"@);
                }
            }
            start = i + 1;
        } else if (c as u32) < 32 {
            return false;
        }
        i = i + 1;
    }
    let run = s.substring_char(start, len);
    out.append(run);
    proof {
        let pre = s@.take(start as int);
        let mid = s@.subrange(start as int, len as int);
        lemma_esc_str_plain(mid);
        lemma_esc_str_concat(pre, mid);
        assert(pre + mid =~= s@);
        assert(s@.take(len as int) =~= s@);
    }
    true
}

/// Appends the canonical form of a boolean to `out`.
fn append_bool(out: &mut String, b: bool)
    ensures
        final(out)@ == old(out)@ + bool_json(b),
{
    if b {
        out.append("true");
    } else {
        out.append("false");
    }
}

/// Appends the canonical form of an optional string field to `out`;
/// fails exactly when the string holds a control character.
fn append_opt_str(out: &mut String, s: &Option<String>) -> (ok: bool)
    ensures
        ok == opt_clean(match *s {
            Some(v) => Some(v@),
            None => None,
        }),
        ok ==> final(out)@ == old(out)@ + opt_str_json(
            match *s {
                Some(v) => Some(v@),
                None => None,
            },
        ),
{
    match s {
        Some(v) => {
            out.append("\"");
            let ok = escape_into(out, v.as_str());
            if !ok {
                return false;
            }
            out.append("\"");
            proof {
                reveal_strlit("\"");
                assert(str_json(v@) =~= "\""@ + esc_str(v@) + "\""@);
            }
            true
        },
        None => {
            out.append("null");
            true
        },
    }
}

/// Encodes a license-terms record in canonical JSON.  Fails exactly when
/// a string field holds a control character.
pub fn license_data_to_json(d: &LicenseData) -> (r: Option<String>)
    ensures
        r is Some <==> license_data_clean(d@),
        r is Some ==> r->0@ == license_data_json(d@),
{
    let mut out = String::new();
    out.append("{\"i_agree\":");
    append_bool(&mut out, d.i_agree);
    out.append(",\"perpetuity\":");
    append_bool(&mut out, d.perpetuity);
    out.append(",\"exclusivity\":");
    append_bool(&mut out, d.exclusivity);
    out.append(",\"personal_use\":");
    append_bool(&mut out, d.personal_use);
    out.append(",\"commercial_use\":");
    append_bool(&mut out, d.commercial_use);
    out.append(",\"limited_display_sublicensee\":");
    append_bool(&mut out, d.limited_display_sublicensee);
    out.append(",\"template\":");
    if !append_opt_str(&mut out, &d.template) {
        return None;
    }
    out.append(",\"pdf_url\":");
    if !append_opt_str(&mut out, &d.pdf_url) {
        return None;
    }
    out.append("}");
    Some(out)
}

/// Encodes a typed asset reference in canonical JSON.  Fails exactly
/// when the path holds a control character.
pub fn token_extra_to_json(t: &TokenExtra) -> (r: Option<String>)
    ensures
        r is Some <==> clean(t@.asset_id_path),
        r is Some ==> r->0@ == token_extra_json(t@),
{
    let mut out = String::new();
    out.append("{\"asset_id_path\":");
    out.append("\"");
    let ok = escape_into(&mut out, t.asset_id_path.as_str());
    if !ok {
        return None;
    }
    out.append("\"");
    out.append("}");
    proof {
        reveal_strlit("\"");
        assert(str_json(t@.asset_id_path) =~= "\""@ + esc_str(t@.asset_id_path) + "\""@);
    }
    Some(out)
}

} // verus!

verus! {

/// The literal `lit` stands at position `i` of `s`.
pub open spec fn at_lit(s: Seq<char>, i: int, lit: Seq<char>) -> bool {
    0 <= i && i + lit.len() <= s.len() && s.subrange(i, i + lit.len()) == lit
}

/// Consumes the literal `lit` at position `i`.
pub open spec fn parse_lit(s: Seq<char>, i: int, lit: Seq<char>) -> Option<int> {
    if at_lit(s, i, lit) {
        Some(i + lit.len())
    } else {
        None
    }
}

/// Consumes `true` or `false` at position `i`.
pub open spec fn parse_bool(s: Seq<char>, i: int) -> Option<(bool, int)> {
    match parse_lit(s, i, "true"@) {
        Some(j) => Some((true, j)),
        None => match parse_lit(s, i, "false"@) {
            Some(j) => Some((false, j)),
            None => None,
        },
    }
}

/// Consumes the body of a quoted string starting just after the opening
/// quote, up to and including the closing quote, undoing the escapes.
/// Rejects control characters and unknown escapes.
pub open spec fn parse_str_body(s: Seq<char>, i: int) -> Option<(Seq<char>, int)>
    decreases s.len() - i,
{
    if i < 0 || i >= s.len() {
        None
    } else if s[i] == '"' {
        Some((Seq::empty(), i + 1))
    } else if s[i] == '\\' {
        if i + 1 < s.len() && (s[i + 1] == '"' || s[i + 1] == '\\') {
            match parse_str_body(s, i + 2) {
                Some((t, j)) => Some((seq![s[i + 1]] + t, j)),
                None => None,
            }
        } else {
            None
        }
    } else if (s[i] as u32) < 32 {
        None
    } else {
        match parse_str_body(s, i + 1) {
            Some((t, j)) => Some((seq![s[i]] + t, j)),
            None => None,
        }
    }
}

/// Consumes `null` or a quoted string at position `i`.
pub open spec fn parse_opt_str(s: Seq<char>, i: int) -> Option<(Option<Seq<char>>, int)> {
    match parse_lit(s, i, "null"@) {
        Some(j) => Some((None, j)),
        None => {
            if 0 <= i < s.len() && s[i] == '"' {
                match parse_str_body(s, i + 1) {
                    Some((t, j)) => Some((Some(t), j)),
                    None => None,
                }
            } else {
                None
            }
        },
    }
}

/// Consumes the opening brace and the first three boolean fields.
pub open spec fn parse_ld_head(s: Seq<char>, i: int) -> Option<((bool, bool, bool), int)> {
    match parse_lit(s, i, "{\"i_agree\":"@) {
        None => None,
        Some(i1) => match parse_bool(s, i1) {
            None => None,
            Some((b1, i2)) => match parse_lit(s, i2, ",\"perpetuity\":"@) {
                None => None,
                Some(i3) => match parse_bool(s, i3) {
                    None => None,
                    Some((b2, i4)) => match parse_lit(s, i4, ",\"exclusivity\":"@) {
                        None => None,
                        Some(i5) => match parse_bool(s, i5) {
                            None => None,
                            Some((b3, i6)) => Some(((b1, b2, b3), i6)),
                        },
                    },
                },
            },
        },
    }
}

/// Consumes the last three boolean fields.
pub open spec fn parse_ld_mid(s: Seq<char>, i: int) -> Option<((bool, bool, bool), int)> {
    match parse_lit(s, i, ",\"personal_use\":"@) {
        None => None,
        Some(i1) => match parse_bool(s, i1) {
            None => None,
            Some((b1, i2)) => match parse_lit(s, i2, ",\"commercial_use\":"@) {
                None => None,
                Some(i3) => match parse_bool(s, i3) {
                    None => None,
                    Some((b2, i4)) => match parse_lit(s, i4, ",\"limited_display_sublicensee\":"@) {
                        None => None,
                        Some(i5) => match parse_bool(s, i5) {
                            None => None,
                            Some((b3, i6)) => Some(((b1, b2, b3), i6)),
                        },
                    },
                },
            },
        },
    }
}

/// Consumes the two optional string fields and the closing brace.
pub open spec fn parse_ld_tail(s: Seq<char>, i: int) -> Option<((Option<Seq<char>>, Option<
    Seq<char>,
>), int)> {
    match parse_lit(s, i, ",\"template\":"@) {
        None => None,
        Some(i1) => match parse_opt_str(s, i1) {
            None => None,
            Some((o1, i2)) => match parse_lit(s, i2, ",\"pdf_url\":"@) {
                None => None,
                Some(i3) => match parse_opt_str(s, i3) {
                    None => None,
                    Some((o2, i4)) => match parse_lit(s, i4, "}"@) {
                        None => None,
                        Some(i5) => Some(((o1, o2), i5)),
                    },
                },
            },
        },
    }
}

/// Decodes the canonical JSON form of a license-terms record; the whole
/// input must be consumed.
pub open spec fn parse_license_data(s: Seq<char>) -> Option<LicenseDataV> {
    match parse_ld_head(s, 0) {
        None => None,
        Some(((i_agree, perpetuity, exclusivity), i6)) => match parse_ld_mid(s, i6) {
            None => None,
            Some(((personal_use, commercial_use, limited), i12)) => match parse_ld_tail(s, i12) {
                None => None,
                Some(((template, pdf_url), i17)) => if i17 == s.len() {
                    Some(
                        LicenseDataV {
                            i_agree,
                            perpetuity,
                            exclusivity,
                            personal_use,
                            commercial_use,
                            limited_display_sublicensee: limited,
                            template,
                            pdf_url,
                        },
                    )
                } else {
                    None
                },
            },
        },
    }
}

/// Decodes the canonical JSON form of a typed asset reference; the whole
/// input must be consumed.
pub open spec fn parse_token_extra(s: Seq<char>) -> Option<TokenExtraV> {
    match parse_lit(s, 0, "{\"asset_id_path\":"@) {
        None => None,
        Some(i1) => {
            if 0 <= i1 < s.len() && s[i1] == '"' {
                match parse_str_body(s, i1 + 1) {
                    None => None,
                    Some((path, i2)) => match parse_lit(s, i2, "}"@) {
                        None => None,
                        Some(i3) => if i3 == s.len() {
                            Some(TokenExtraV { asset_id_path: path })
                        } else {
                            None
                        },
                    },
                }
            } else {
                None
            }
        },
    }
}

} // verus!

verus! {

/// Splitting a known suffix of `s` into a head segment and a tail.
pub proof fn lemma_chain_split(s: Seq<char>, i: int, a: Seq<char>, rest: Seq<char>)
    requires
        0 <= i <= s.len(),
        s.subrange(i, s.len() as int) == a + rest,
    ensures
        i + a.len() <= s.len(),
        s.subrange(i, i + a.len()) == a,
        s.subrange(i + a.len(), s.len() as int) == rest,
{
    assert(s.subrange(i, s.len() as int).len() == a.len() + rest.len());
    assert(s.subrange(i, i + a.len()) =~= a) by {
        assert forall|j: int| 0 <= j < a.len() implies s.subrange(i, i + a.len())[j] == a[j] by {
            assert(s.subrange(i, s.len() as int)[j] == (a + rest)[j]);
        }
    }
    assert(s.subrange(i + a.len(), s.len() as int) =~= rest) by {
        assert forall|j: int| 0 <= j < rest.len() implies s.subrange(
            i + a.len(),
            s.len() as int,
        )[j] == rest[j] by {
            assert(s.subrange(i + a.len(), s.len() as int)[j] == s[i + a.len() + j]);
            assert(s.subrange(i, s.len() as int)[a.len() + j] == s[i + a.len() + j]);
            assert((a + rest)[a.len() + j] == rest[j]);
        }
    }
}

/// A literal standing at the head of the current suffix is consumed.
pub proof fn lemma_parse_lit_chain(s: Seq<char>, i: int, lit: Seq<char>, rest: Seq<char>)
    requires
        0 <= i <= s.len(),
        s.subrange(i, s.len() as int) == lit + rest,
    ensures
        parse_lit(s, i, lit) == Some(i + lit.len()),
        i + lit.len() <= s.len(),
        s.subrange(i + lit.len(), s.len() as int) == rest,
{
    lemma_chain_split(s, i, lit, rest);
}

/// A boolean standing at the head of the current suffix is consumed.
pub proof fn lemma_parse_bool_chain(s: Seq<char>, i: int, b: bool, rest: Seq<char>)
    requires
        0 <= i <= s.len(),
        s.subrange(i, s.len() as int) == bool_json(b) + rest,
    ensures
        parse_bool(s, i) == Some((b, i + bool_json(b).len())),
        i + bool_json(b).len() <= s.len(),
        s.subrange(i + bool_json(b).len(), s.len() as int) == rest,
{
    reveal_strlit("true");
    reveal_strlit("false");
    lemma_chain_split(s, i, bool_json(b), rest);
    if b {
        assert(at_lit(s, i, "true"@));
    } else {
        if at_lit(s, i, "true"@) {
            assert(s.subrange(i, i + 4)[0] == s[i]);
            assert(s.subrange(i, i + 5)[0] == s[i]);
            assert(false);
        }
        assert(at_lit(s, i, "false"@));
    }
}

/// The escaped body of a clean string, followed by its closing quote,
/// decodes back to the string.
pub proof fn lemma_parse_str_chain(s: Seq<char>, i: int, t: Seq<char>, rest: Seq<char>)
    requires
        0 <= i <= s.len(),
        clean(t),
        s.subrange(i, s.len() as int) == esc_str(t) + (seq!['"'] + rest),
    ensures
        parse_str_body(s, i) == Some((t, i + esc_str(t).len() + 1)),
        i + esc_str(t).len() + 1 <= s.len(),
        s.subrange(i + esc_str(t).len() + 1, s.len() as int) == rest,
    decreases t.len(),
{
    lemma_chain_split(s, i, esc_str(t), seq!['"'] + rest);
    let j = i + esc_str(t).len();
    lemma_chain_split(s, j, seq!['"'], rest);
    assert(s.subrange(j, j + 1)[0] == s[j]);
    assert(s[j] == '"');
    if t.len() == 0 {
        assert(esc_str(t).len() == 0);
        assert(s[i] == '"');
        assert(parse_str_body(s, i) == Some((Seq::<char>::empty(), i + 1)));
        assert(t =~= Seq::<char>::empty());
    } else {
        let c = t[0];
        let t1 = t.drop_first();
        assert(esc_str(t) == esc_char(c) + esc_str(t1));
        assert(clean(t1)) by {
            assert(forall|k: int| 0 <= k < t1.len() ==> t1[k] == t[k + 1]);
        }
        assert((c as u32) >= 32);
        let head = esc_char(c);
        assert(s.subrange(i, s.len() as int) =~= head + (esc_str(t1) + (seq!['"'] + rest)));
        lemma_chain_split(s, i, head, esc_str(t1) + (seq!['"'] + rest));
        lemma_parse_str_chain(s, i + head.len(), t1, rest);
        if c == '"' || c == '\\' {
            assert(head == seq!['\\', c]);
            assert(s.subrange(i, i + 2)[0] == s[i]);
            assert(s.subrange(i, i + 2)[1] == s[i + 1]);
            assert(s[i] == '\\');
            assert(s[i + 1] == c);
            assert(parse_str_body(s, i) == Some((seq![c] + t1, i + 2 + esc_str(t1).len() + 1)));
            assert(seq![c] + t1 =~= t);
        } else {
            assert(head == seq![c]);
            assert(s.subrange(i, i + 1)[0] == s[i]);
            assert(s[i] == c);
            assert(parse_str_body(s, i) == Some((seq![c] + t1, i + 1 + esc_str(t1).len() + 1)));
            assert(seq![c] + t1 =~= t);
        }
    }
}

/// An optional string field standing at the head of the current suffix
/// is consumed.
pub proof fn lemma_parse_opt_chain(s: Seq<char>, i: int, o: Option<Seq<char>>, rest: Seq<char>)
    requires
        0 <= i <= s.len(),
        opt_clean(o),
        s.subrange(i, s.len() as int) == opt_str_json(o) + rest,
    ensures
        parse_opt_str(s, i) == Some((o, i + opt_str_json(o).len())),
        i + opt_str_json(o).len() <= s.len(),
        s.subrange(i + opt_str_json(o).len(), s.len() as int) == rest,
{
    reveal_strlit("null");
    match o {
        None => {
            lemma_parse_lit_chain(s, i, "null"@, rest);
        },
        Some(v) => {
            lemma_chain_split(s, i, opt_str_json(o), rest);
            assert(str_json(v)[0] == '"');
            assert(s[i] == '"');
            if at_lit(s, i, "null"@) {
                assert(s.subrange(i, i + 4)[0] == s[i]);
                assert(false);
            }
            assert(s.subrange(i + 1, s.len() as int) =~= esc_str(v) + (seq!['"'] + rest)) by {
                assert forall|k: int| 0 <= k < s.len() - i - 1 implies s.subrange(
                    i + 1,
                    s.len() as int,
                )[k] == (esc_str(v) + (seq!['"'] + rest))[k] by {
                    assert(s.subrange(i, s.len() as int)[k + 1] == (str_json(v) + rest)[k + 1]);
                }
            }
            lemma_parse_str_chain(s, i + 1, v, rest);
        },
    }
}

/// Sequence concatenation re-associates.
pub proof fn lemma_add_assoc(a: Seq<char>, b: Seq<char>, c: Seq<char>)
    ensures
        (a + b) + c == a + (b + c),
{
    assert((a + b) + c =~= a + (b + c));
}

/// The encoding of a license-terms record, re-associated so that each
/// segment heads its own suffix.
pub proof fn lemma_license_data_json_suffix(d: LicenseDataV)
    ensures
        license_data_json(d) == "{\"i_agree\":"@ + (bool_json(d.i_agree) + (",\"perpetuity\":"@
            + (bool_json(d.perpetuity) + (",\"exclusivity\":"@ + (bool_json(d.exclusivity)
            + (",\"personal_use\":"@ + (bool_json(d.personal_use) + (",\"commercial_use\":"@
            + (bool_json(d.commercial_use) + (",\"limited_display_sublicensee\":"@ + (bool_json(
            d.limited_display_sublicensee,
        ) + (",\"template\":"@ + (opt_str_json(d.template) + (",\"pdf_url\":"@ + (opt_str_json(
            d.pdf_url,
        ) + "}"@))))))))))))))),
{
    let l0 = "{\"i_agree\":"@;
    let b1 = bool_json(d.i_agree);
    let l1 = ",\"perpetuity\":"@;
    let b2 = bool_json(d.perpetuity);
    let l2 = ",\"exclusivity\":"@;
    let b3 = bool_json(d.exclusivity);
    let l3 = ",\"personal_use\":"@;
    let b4 = bool_json(d.personal_use);
    let l4 = ",\"commercial_use\":"@;
    let b5 = bool_json(d.commercial_use);
    let l5 = ",\"limited_display_sublicensee\":"@;
    let b6 = bool_json(d.limited_display_sublicensee);
    let l6 = ",\"template\":"@;
    let o7 = opt_str_json(d.template);
    let l7 = ",\"pdf_url\":"@;
    let o8 = opt_str_json(d.pdf_url);
    let l8 = "}"@;
    let p2 = l0 + b1;
    let p3 = p2 + l1;
    let p4 = p3 + b2;
    let p5 = p4 + l2;
    let p6 = p5 + b3;
    let p7 = p6 + l3;
    let p8 = p7 + b4;
    let p9 = p8 + l4;
    let p10 = p9 + b5;
    let p11 = p10 + l5;
    let p12 = p11 + b6;
    let p13 = p12 + l6;
    let p14 = p13 + o7;
    let p15 = p14 + l7;
    let p16 = p15 + o8;
    let p17 = p16 + l8;
    assert(license_data_json(d) == p17);
    let r16 = o8 + l8;
    lemma_add_assoc(p15, o8, l8);
    let r15 = l7 + r16;
    lemma_add_assoc(p14, l7, r16);
    let r14 = o7 + r15;
    lemma_add_assoc(p13, o7, r15);
    let r13 = l6 + r14;
    lemma_add_assoc(p12, l6, r14);
    let r12 = b6 + r13;
    lemma_add_assoc(p11, b6, r13);
    let r11 = l5 + r12;
    lemma_add_assoc(p10, l5, r12);
    let r10 = b5 + r11;
    lemma_add_assoc(p9, b5, r11);
    let r9 = l4 + r10;
    lemma_add_assoc(p8, l4, r10);
    let r8 = b4 + r9;
    lemma_add_assoc(p7, b4, r9);
    let r7 = l3 + r8;
    lemma_add_assoc(p6, l3, r8);
    let r6 = b3 + r7;
    lemma_add_assoc(p5, b3, r7);
    let r5 = l2 + r6;
    lemma_add_assoc(p4, l2, r6);
    let r4 = b2 + r5;
    lemma_add_assoc(p3, b2, r5);
    let r3 = l1 + r4;
    lemma_add_assoc(p2, l1, r4);
    let r2 = b1 + r3;
    lemma_add_assoc(l0, b1, r3);
    assert(license_data_json(d) == l0 + r2);
}

/// The head stage consumes its six segments.
#[verifier::rlimit(100)]
pub proof fn lemma_parse_ld_head_chain(s: Seq<char>, i: int, b1: bool, b2: bool, b3: bool, rest: Seq<char>)
    requires
        0 <= i <= s.len(),
        s.subrange(i, s.len() as int) == "{\"i_agree\":"@ + (bool_json(b1) + (",\"perpetuity\":"@
            + (bool_json(b2) + (",\"exclusivity\":"@ + (bool_json(b3) + rest))))),
    ensures
        ({
            let j = i + "{\"i_agree\":"@.len() + bool_json(b1).len() + ",\"perpetuity\":"@.len()
                + bool_json(b2).len() + ",\"exclusivity\":"@.len() + bool_json(b3).len();
            parse_ld_head(s, i) == Some(((b1, b2, b3), j)) && j <= s.len() && s.subrange(
                j,
                s.len() as int,
            ) == rest
        }),
{
    let r1 = bool_json(b1) + (",\"perpetuity\":"@ + (bool_json(b2) + (",\"exclusivity\":"@
        + (bool_json(b3) + rest))));
    let r2 = ",\"perpetuity\":"@ + (bool_json(b2) + (",\"exclusivity\":"@ + (bool_json(b3)
        + rest)));
    let r3 = bool_json(b2) + (",\"exclusivity\":"@ + (bool_json(b3) + rest));
    let r4 = ",\"exclusivity\":"@ + (bool_json(b3) + rest);
    let r5 = bool_json(b3) + rest;
    lemma_parse_lit_chain(s, i, "{\"i_agree\":"@, r1);
    let i1 = i + "{\"i_agree\":"@.len() as int;
    lemma_parse_bool_chain(s, i1, b1, r2);
    let i2 = i1 + bool_json(b1).len() as int;
    lemma_parse_lit_chain(s, i2, ",\"perpetuity\":"@, r3);
    let i3 = i2 + ",\"perpetuity\":"@.len() as int;
    lemma_parse_bool_chain(s, i3, b2, r4);
    let i4 = i3 + bool_json(b2).len() as int;
    lemma_parse_lit_chain(s, i4, ",\"exclusivity\":"@, r5);
    let i5 = i4 + ",\"exclusivity\":"@.len() as int;
    lemma_parse_bool_chain(s, i5, b3, rest);
}

/// The middle stage consumes its six segments.
#[verifier::rlimit(100)]
pub proof fn lemma_parse_ld_mid_chain(s: Seq<char>, i: int, b1: bool, b2: bool, b3: bool, rest: Seq<char>)
    requires
        0 <= i <= s.len(),
        s.subrange(i, s.len() as int) == ",\"personal_use\":"@ + (bool_json(b1)
            + (",\"commercial_use\":"@ + (bool_json(b2) + (",\"limited_display_sublicensee\":"@
            + (bool_json(b3) + rest))))),
    ensures
        ({
            let j = i + ",\"personal_use\":"@.len() + bool_json(b1).len()
                + ",\"commercial_use\":"@.len() + bool_json(b2).len()
                + ",\"limited_display_sublicensee\":"@.len() + bool_json(b3).len();
            parse_ld_mid(s, i) == Some(((b1, b2, b3), j)) && j <= s.len() && s.subrange(
                j,
                s.len() as int,
            ) == rest
        }),
{
    let r1 = bool_json(b1) + (",\"commercial_use\":"@ + (bool_json(b2)
        + (",\"limited_display_sublicensee\":"@ + (bool_json(b3) + rest))));
    let r2 = ",\"commercial_use\":"@ + (bool_json(b2) + (",\"limited_display_sublicensee\":"@
        + (bool_json(b3) + rest)));
    let r3 = bool_json(b2) + (",\"limited_display_sublicensee\":"@ + (bool_json(b3) + rest));
    let r4 = ",\"limited_display_sublicensee\":"@ + (bool_json(b3) + rest);
    let r5 = bool_json(b3) + rest;
    lemma_parse_lit_chain(s, i, ",\"personal_use\":"@, r1);
    let i1 = i + ",\"personal_use\":"@.len() as int;
    lemma_parse_bool_chain(s, i1, b1, r2);
    let i2 = i1 + bool_json(b1).len() as int;
    lemma_parse_lit_chain(s, i2, ",\"commercial_use\":"@, r3);
    let i3 = i2 + ",\"commercial_use\":"@.len() as int;
    lemma_parse_bool_chain(s, i3, b2, r4);
    let i4 = i3 + bool_json(b2).len() as int;
    lemma_parse_lit_chain(s, i4, ",\"limited_display_sublicensee\":"@, r5);
    let i5 = i4 + ",\"limited_display_sublicensee\":"@.len() as int;
    lemma_parse_bool_chain(s, i5, b3, rest);
}

/// The tail stage consumes its five segments.
#[verifier::rlimit(100)]
pub proof fn lemma_parse_ld_tail_chain(
    s: Seq<char>,
    i: int,
    o1: Option<Seq<char>>,
    o2: Option<Seq<char>>,
    rest: Seq<char>,
)
    requires
        0 <= i <= s.len(),
        opt_clean(o1),
        opt_clean(o2),
        s.subrange(i, s.len() as int) == ",\"template\":"@ + (opt_str_json(o1)
            + (",\"pdf_url\":"@ + (opt_str_json(o2) + ("}"@ + rest)))),
    ensures
        ({
            let j = i + ",\"template\":"@.len() + opt_str_json(o1).len() + ",\"pdf_url\":"@.len()
                + opt_str_json(o2).len() + "}"@.len();
            parse_ld_tail(s, i) == Some(((o1, o2), j)) && j <= s.len() && s.subrange(
                j,
                s.len() as int,
            ) == rest
        }),
{
    let r1 = opt_str_json(o1) + (",\"pdf_url\":"@ + (opt_str_json(o2) + ("}"@ + rest)));
    let r2 = ",\"pdf_url\":"@ + (opt_str_json(o2) + ("}"@ + rest));
    let r3 = opt_str_json(o2) + ("}"@ + rest);
    let r4 = "}"@ + rest;
    lemma_parse_lit_chain(s, i, ",\"template\":"@, r1);
    let i1 = i + ",\"template\":"@.len() as int;
    lemma_parse_opt_chain(s, i1, o1, r2);
    let i2 = i1 + opt_str_json(o1).len() as int;
    lemma_parse_lit_chain(s, i2, ",\"pdf_url\":"@, r3);
    let i3 = i2 + ",\"pdf_url\":"@.len() as int;
    lemma_parse_opt_chain(s, i3, o2, r4);
    let i4 = i3 + opt_str_json(o2).len() as int;
    lemma_parse_lit_chain(s, i4, "}"@, rest);
}

/// The tail stage at the end of the input consumes everything left.
#[verifier::rlimit(100)]
pub proof fn lemma_parse_ld_tail_closed(s: Seq<char>, i: int, o1: Option<Seq<char>>, o2: Option<
    Seq<char>,
>)
    requires
        0 <= i <= s.len(),
        opt_clean(o1),
        opt_clean(o2),
        s.subrange(i, s.len() as int) == ",\"template\":"@ + (opt_str_json(o1)
            + (",\"pdf_url\":"@ + (opt_str_json(o2) + "}"@))),
    ensures
        parse_ld_tail(s, i) == Some(((o1, o2), s.len() as int)),
{
    let rnil: Seq<char> = Seq::empty();
    assert("}"@ + rnil =~= "}"@);
    assert(",\"template\":"@ + (opt_str_json(o1) + (",\"pdf_url\":"@ + (opt_str_json(o2) + ("}"@
        + rnil)))) == ",\"template\":"@ + (opt_str_json(o1) + (",\"pdf_url\":"@ + (opt_str_json(o2)
        + "}"@))));
    lemma_parse_ld_tail_chain(s, i, o1, o2, rnil);
    let j = i + ",\"template\":"@.len() + opt_str_json(o1).len() + ",\"pdf_url\":"@.len()
        + opt_str_json(o2).len() + "}"@.len();
    assert(s.subrange(j, s.len() as int) == rnil);
    assert(j == s.len());
}

/// Decoding is the exact inverse of encoding for license terms.
#[verifier::rlimit(100)]
pub proof fn lemma_license_data_round_trip(d: LicenseDataV)
    requires
        license_data_clean(d),
    ensures
        parse_license_data(license_data_json(d)) == Some(d),
{
    let s = license_data_json(d);
    let rtail = ",\"template\":"@ + (opt_str_json(d.template) + (",\"pdf_url\":"@ + (opt_str_json(
        d.pdf_url,
    ) + "}"@)));
    let rmid = ",\"personal_use\":"@ + (bool_json(d.personal_use) + (",\"commercial_use\":"@
        + (bool_json(d.commercial_use) + (",\"limited_display_sublicensee\":"@ + (bool_json(
        d.limited_display_sublicensee,
    ) + rtail)))));
    let i6 = 0 + "{\"i_agree\":"@.len() as int + bool_json(d.i_agree).len()
        + ",\"perpetuity\":"@.len() + bool_json(d.perpetuity).len() + ",\"exclusivity\":"@.len()
        + bool_json(d.exclusivity).len();
    let i12 = i6 + ",\"personal_use\":"@.len() as int + bool_json(d.personal_use).len()
        + ",\"commercial_use\":"@.len() + bool_json(d.commercial_use).len()
        + ",\"limited_display_sublicensee\":"@.len() + bool_json(
        d.limited_display_sublicensee,
    ).len();
    assert(parse_ld_head(s, 0) == Some(((d.i_agree, d.perpetuity, d.exclusivity), i6)) && i6
        <= s.len() && s.subrange(i6, s.len() as int) == rmid) by {
        lemma_license_data_json_suffix(d);
        assert(s.subrange(0, s.len() as int) =~= s);
        lemma_parse_ld_head_chain(s, 0, d.i_agree, d.perpetuity, d.exclusivity, rmid);
    }
    assert(parse_ld_mid(s, i6) == Some(
        ((d.personal_use, d.commercial_use, d.limited_display_sublicensee), i12),
    ) && i12 <= s.len() && s.subrange(i12, s.len() as int) == rtail) by {
        lemma_parse_ld_mid_chain(
            s,
            i6,
            d.personal_use,
            d.commercial_use,
            d.limited_display_sublicensee,
            rtail,
        );
    }
    assert(parse_ld_tail(s, i12) == Some(((d.template, d.pdf_url), s.len() as int))) by {
        lemma_parse_ld_tail_closed(s, i12, d.template, d.pdf_url);
    }
    assert(parse_license_data(s) == Some(d));
}

/// Decoding is the exact inverse of encoding for asset references.
#[verifier::rlimit(50)]
pub proof fn lemma_token_extra_round_trip(t: TokenExtraV)
    requires
        clean(t.asset_id_path),
    ensures
        parse_token_extra(token_extra_json(t)) == Some(t),
{
    let s = token_extra_json(t);
    let r3: Seq<char> = Seq::empty();
    let r2 = "}"@ + r3;
    let r1 = str_json(t.asset_id_path) + r2;
    let r0 = "{\"asset_id_path\":"@ + r1;
    assert(s =~= r0);
    assert(s.subrange(0, s.len() as int) =~= r0);
    lemma_parse_lit_chain(s, 0, "{\"asset_id_path\":"@, r1);
    let i1 = 0 + "{\"asset_id_path\":"@.len() as int;
    lemma_chain_split(s, i1, str_json(t.asset_id_path), r2);
    assert(str_json(t.asset_id_path)[0] == '"');
    assert(s[i1] == '"');
    assert(s.subrange(i1 + 1, s.len() as int) =~= esc_str(t.asset_id_path) + (seq!['"'] + r2)) by {
        assert forall|k: int| 0 <= k < s.len() - i1 - 1 implies s.subrange(
            i1 + 1,
            s.len() as int,
        )[k] == (esc_str(t.asset_id_path) + (seq!['"'] + r2))[k] by {
            assert(s.subrange(i1, s.len() as int)[k + 1] == (str_json(t.asset_id_path) + r2)[k
                + 1]);
        }
    }
    lemma_parse_str_chain(s, i1 + 1, t.asset_id_path, r2);
    let i2 = i1 + 1 + esc_str(t.asset_id_path).len() as int + 1;
    lemma_parse_lit_chain(s, i2, "}"@, r3);
    let i3 = i2 + "}"@.len() as int;
    assert(s.subrange(i3, s.len() as int) == r3);
    assert(i3 == s.len());
}

} // verus!

verus! {

/// Matches the literal `lit` at character position `i` of `s`.
fn expect_lit(s: &str, i: usize, lit: &str) -> (r: Option<usize>)
    requires
        i <= s@.len(),
    ensures
        match r {
            Some(j) => parse_lit(s@, i as int, lit@) == Some(j as int) && j <= s@.len(),
            None => parse_lit(s@, i as int, lit@) is None,
        },
{
    let n = s.unicode_len();
    let m = lit.unicode_len();
    if m > n - i {
        proof {
            assert(!at_lit(s@, i as int, lit@));
        }
        return None;
    }
    let mut k: usize = 0;
    while k < m
        invariant
            0 <= k <= m,
            i + m <= n,
            n == s@.len(),
            m == lit@.len(),
            forall|j: int| 0 <= j < k ==> s@[i + j] == lit@[j],
        decreases m - k,
    {
        if s.get_char(i + k) != lit.get_char(k) {
            proof {
                assert(s@.subrange(i as int, i + lit@.len()) != lit@) by {
                    assert(s@.subrange(i as int, i + lit@.len())[k as int] == s@[i + k]);
                }
            }
            return None;
        }
        k = k + 1;
    }
    proof {
        assert(s@.subrange(i as int, i + lit@.len()) =~= lit@);
    }
    Some(i + m)
}

/// Reads `true` or `false` at character position `i` of `s`.
fn read_bool(s: &str, i: usize) -> (r: Option<(bool, usize)>)
    requires
        i <= s@.len(),
    ensures
        match r {
            Some((b, j)) => parse_bool(s@, i as int) == Some((b, j as int)) && j <= s@.len(),
            None => parse_bool(s@, i as int) is None,
        },
{
    match expect_lit(s, i, "true") {
        Some(j) => Some((true, j)),
        None => match expect_lit(s, i, "false") {
            Some(j) => Some((false, j)),
            None => None,
        },
    }
}

/// Reads a string body at character position `i` of `s` (just after the
/// opening quote), undoing escapes, through the closing quote.
fn read_str_body(s: &str, i: usize) -> (r: Option<(String, usize)>)
    requires
        i <= s@.len(),
    ensures
        match r {
            Some((t, j)) => parse_str_body(s@, i as int) == Some((t@, j as int)) && j <= s@.len(),
            None => parse_str_body(s@, i as int) is None,
        },
{
    let n = s.unicode_len();
    let mut out = String::new();
    let mut j: usize = i;
    let mut run_start: usize = i;
    proof {
        if parse_str_body(s@, i as int) is Some {
            let (t, k) = parse_str_body(s@, i as int)->0;
            assert(out@ + s@.subrange(i as int, i as int) + t =~= t);
        }
    }
    loop
        invariant
            i <= run_start <= j <= n,
            n == s@.len(),
            (match parse_str_body(s@, j as int) {
                Some((t, k)) => parse_str_body(s@, i as int) == Some(
                    (out@ + s@.subrange(run_start as int, j as int) + t, k),
                ),
                None => parse_str_body(s@, i as int) is None,
            }),
        decreases n - j,
    {
        if j >= n {
            return None;
        }
        let c = s.get_char(j);
        if c == '"' {
            let ghost out0 = out@;
            let run = s.substring_char(run_start, j);
            out.append(run);
            proof {
                assert(parse_str_body(s@, j as int) == Some((Seq::<char>::empty(), j + 1)));
                assert(out0 + s@.subrange(run_start as int, j as int) + Seq::<char>::empty() =~= out@);
            }
            return Some((out, j + 1));
        } else if c == '\\' {
            if j + 1 >= n {
                return None;
            }
            let c2 = s.get_char(j + 1);
            if c2 == '"' || c2 == '\\' {
                let ghost out0 = out@;
                let run = s.substring_char(run_start, j);
                out.append(run);
                if c2 == '"' {
                    out.append("\"");
                    proof {
                        reveal_strlit("\"");
                        assert("\""@ =~= seq!['"']);
                    }
                } else {
                    out.append("\\");
                    proof {
                        reveal_strlit("\\");
                        assert("\\"@ =~= seq!['\\']);
                    }
                }
                proof {
                    assert(out@ == out0 + s@.subrange(run_start as int, j as int) + seq![c2]);
                    if parse_str_body(s@, j + 2) is Some {
                        let (t2, k) = parse_str_body(s@, j + 2)->0;
                        assert(parse_str_body(s@, j as int) == Some((seq![c2] + t2, k)));
                        assert(out0 + s@.subrange(run_start as int, j as int) + (seq![c2] + t2)
                            =~= out@ + s@.subrange(j + 2, j + 2) + t2);
                    } else {
                        assert(parse_str_body(s@, j as int) is None);
                    }
                }
                j = j + 2;
                run_start = j;
            } else {
                return None;
            }
        } else if (c as u32) < 32 {
            return None;
        } else {
            proof {
                if parse_str_body(s@, j + 1) is Some {
                    let (t1, k) = parse_str_body(s@, j + 1)->0;
                    assert(parse_str_body(s@, j as int) == Some((seq![c] + t1, k)));
                    assert(s@.subrange(run_start as int, j + 1) =~= s@.subrange(
                        run_start as int,
                        j as int,
                    ) + seq![c]);
                    assert(out@ + s@.subrange(run_start as int, j as int) + (seq![c] + t1) =~= out@
                        + s@.subrange(run_start as int, j + 1) + t1);
                } else {
                    assert(parse_str_body(s@, j as int) is None);
                }
            }
            j = j + 1;
        }
    }
}

} // verus!

verus! {

/// The view of an optional owned string.
pub open spec fn opt_str_view(o: Option<String>) -> Option<Seq<char>> {
    match o {
        Some(t) => Some(t@),
        None => None,
    }
}

/// Reads `null` or a quoted string at character position `i` of `s`.
fn read_opt_str(s: &str, i: usize) -> (r: Option<(Option<String>, usize)>)
    requires
        i <= s@.len(),
    ensures
        match r {
            Some((o, j)) => parse_opt_str(s@, i as int) == Some((opt_str_view(o), j as int)) && j
                <= s@.len(),
            None => parse_opt_str(s@, i as int) is None,
        },
{
    let n = s.unicode_len();
    match expect_lit(s, i, "null") {
        Some(j) => Some((None, j)),
        None => {
            if i < n && s.get_char(i) == '"' {
                match read_str_body(s, i + 1) {
                    Some((t, j)) => Some((Some(t), j)),
                    None => None,
                }
            } else {
                None
            }
        },
    }
}

/// Reads the opening brace and the first three boolean fields.
fn read_ld_head(s: &str) -> (r: Option<((bool, bool, bool), usize)>)
    ensures
        match r {
            Some((bs, j)) => parse_ld_head(s@, 0) == Some((bs, j as int)) && j <= s@.len(),
            None => parse_ld_head(s@, 0) is None,
        },
{
    let i1 = match expect_lit(s, 0, "{\"i_agree\":") {
        Some(j) => j,
        None => {
            return None;
        },
    };
    let (b1, i2) = match read_bool(s, i1) {
        Some(p) => p,
        None => {
            return None;
        },
    };
    let i3 = match expect_lit(s, i2, ",\"perpetuity\":") {
        Some(j) => j,
        None => {
            return None;
        },
    };
    let (b2, i4) = match read_bool(s, i3) {
        Some(p) => p,
        None => {
            return None;
        },
    };
    let i5 = match expect_lit(s, i4, ",\"exclusivity\":") {
        Some(j) => j,
        None => {
            return None;
        },
    };
    let (b3, i6) = match read_bool(s, i5) {
        Some(p) => p,
        None => {
            return None;
        },
    };
    Some(((b1, b2, b3), i6))
}

/// Reads the last three boolean fields.
fn read_ld_mid(s: &str, i: usize) -> (r: Option<((bool, bool, bool), usize)>)
    requires
        i <= s@.len(),
    ensures
        match r {
            Some((bs, j)) => parse_ld_mid(s@, i as int) == Some((bs, j as int)) && j <= s@.len(),
            None => parse_ld_mid(s@, i as int) is None,
        },
{
    let i1 = match expect_lit(s, i, ",\"personal_use\":") {
        Some(j) => j,
        None => {
            return None;
        },
    };
    let (b1, i2) = match read_bool(s, i1) {
        Some(p) => p,
        None => {
            return None;
        },
    };
    let i3 = match expect_lit(s, i2, ",\"commercial_use\":") {
        Some(j) => j,
        None => {
            return None;
        },
    };
    let (b2, i4) = match read_bool(s, i3) {
        Some(p) => p,
        None => {
            return None;
        },
    };
    let i5 = match expect_lit(s, i4, ",\"limited_display_sublicensee\":") {
        Some(j) => j,
        None => {
            return None;
        },
    };
    let (b3, i6) = match read_bool(s, i5) {
        Some(p) => p,
        None => {
            return None;
        },
    };
    Some(((b1, b2, b3), i6))
}

/// Reads the two optional string fields and the closing brace.
fn read_ld_tail(s: &str, i: usize) -> (r: Option<((Option<String>, Option<String>), usize)>)
    requires
        i <= s@.len(),
    ensures
        match r {
            Some((os, j)) => parse_ld_tail(s@, i as int) == Some(
                ((opt_str_view(os.0), opt_str_view(os.1)), j as int),
            ) && j <= s@.len(),
            None => parse_ld_tail(s@, i as int) is None,
        },
{
    let i1 = match expect_lit(s, i, ",\"template\":") {
        Some(j) => j,
        None => {
            return None;
        },
    };
    let (o1, i2) = match read_opt_str(s, i1) {
        Some(p) => p,
        None => {
            return None;
        },
    };
    let i3 = match expect_lit(s, i2, ",\"pdf_url\":") {
        Some(j) => j,
        None => {
            return None;
        },
    };
    let (o2, i4) = match read_opt_str(s, i3) {
        Some(p) => p,
        None => {
            return None;
        },
    };
    let i5 = match expect_lit(s, i4, "}") {
        Some(j) => j,
        None => {
            return None;
        },
    };
    Some(((o1, o2), i5))
}

/// Decodes a license-terms record from its canonical JSON form; returns
/// nothing on any other input.
pub fn license_data_from_json(s: &str) -> (r: Option<LicenseData>)
    ensures
        match r {
            Some(d) => parse_license_data(s@) == Some(d@),
            None => parse_license_data(s@) is None,
        },
{
    let n = s.unicode_len();
    let (bs1, i6) = match read_ld_head(s) {
        Some(p) => p,
        None => {
            return None;
        },
    };
    let (bs2, i12) = match read_ld_mid(s, i6) {
        Some(p) => p,
        None => {
            return None;
        },
    };
    let (os, i17) = match read_ld_tail(s, i12) {
        Some(p) => p,
        None => {
            return None;
        },
    };
    if i17 != n {
        return None;
    }
    Some(
        LicenseData {
            i_agree: bs1.0,
            perpetuity: bs1.1,
            exclusivity: bs1.2,
            personal_use: bs2.0,
            commercial_use: bs2.1,
            limited_display_sublicensee: bs2.2,
            template: os.0,
            pdf_url: os.1,
        },
    )
}

/// Decodes a typed asset reference from its canonical JSON form; returns
/// nothing on any other input.
pub fn token_extra_from_json(s: &str) -> (r: Option<TokenExtra>)
    ensures
        match r {
            Some(t) => parse_token_extra(s@) == Some(t@),
            None => parse_token_extra(s@) is None,
        },
{
    let n = s.unicode_len();
    let i1 = match expect_lit(s, 0, "{\"asset_id_path\":") {
        Some(j) => j,
        None => {
            return None;
        },
    };
    if !(i1 < n && s.get_char(i1) == '"') {
        return None;
    }
    let (path, i2) = match read_str_body(s, i1 + 1) {
        Some(p) => p,
        None => {
            return None;
        },
    };
    let i3 = match expect_lit(s, i2, "}") {
        Some(j) => j,
        None => {
            return None;
        },
    };
    if i3 != n {
        return None;
    }
    Some(TokenExtra { asset_id_path: path })
}

} // verus!
