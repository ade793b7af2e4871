//! The charts web page: where its static files are served from, the page
//! itself, and the date a client asks for updates since.
use vstd::prelude::*;
use crate::decimal::{is_digit, all_digits, digits_value, digits_u64};
use crate::text::{chars_of, string_from_chars, chars_match, subvec, trim_end, trim_end_chars, index_of, find_char, lemma_index_of_is};
use crate::time::{Timestamp, chrono_parse_utc, parse_utc_datetime};

verus! {

/// Where static files are served from unless the configuration says otherwise.
pub open spec fn default_static_base() -> Seq<char> {
    "/static"@
}

/// The base of the static files' addresses: the configured `static_base`, if
/// there is one.
pub fn get_static_base(configured: Option<&str>) -> (res: String)
    ensures
        res@ == match configured {
            Some(s) => s@,
            None => default_static_base(),
        },
{
    match configured {
        Some(s) => String::from_str(s),
        None => String::from_str("/static"),
    }
}

/// Whether this server must serve the static files itself: it must when they
/// are under the default base.
pub fn use_local_static_handler(static_base: &str) -> (res: bool)
    ensures
        res == (static_base@ == default_static_base()),
{
    let cs = chars_of(static_base);
    crate::text::chars_match(&cs, "/static")
}

/// Whether `c` sets the alignment in a format specification.
pub open spec fn is_align(c: char) -> bool {
    c == '<' || c == '>' || c == '^'
}

/// How many ASCII digits `s` starts with.
pub open spec fn digit_prefix_len(s: Seq<char>) -> nat
    decreases s.len(),
{
    if s.len() > 0 && is_digit(s[0]) {
        1 + digit_prefix_len(s.skip(1))
    } else {
        0
    }
}

/// `n` copies of `c`.
pub open spec fn fill_chars(c: char, n: nat) -> Seq<char> {
    Seq::new(n, |i: int| c)
}

/// `a` padded with `fill` to `width` characters, as `align` places it (left
/// unless `>` or `^` says otherwise).
pub open spec fn padded(a: Seq<char>, fill: char, align: char, width: nat) -> Seq<char> {
    if width <= a.len() {
        a
    } else {
        let n = (width - a.len()) as nat;
        if align == '>' {
            fill_chars(fill, n) + a
        } else if align == '^' {
            fill_chars(fill, n / 2) + a + fill_chars(fill, (n - n / 2) as nat)
        } else {
            a + fill_chars(fill, n)
        }
    }
}

/// The fill, the alignment and the rest of a format specification.
pub open spec fn split_align(spec: Seq<char>) -> (char, char, Seq<char>) {
    if spec.len() >= 2 && is_align(spec[1]) {
        (spec[0], spec[1], spec.skip(2))
    } else if spec.len() >= 1 && is_align(spec[0]) {
        (' ', spec[0], spec.skip(1))
    } else {
        (' ', '<', spec)
    }
}

/// A string argument as `format!` writes it with the format specification
/// `spec` (the text after the `:`): `[[fill]align][width][.precision]`, the
/// precision cutting the text to that many characters and the width padding
/// it. Specifications with flags (`+ - # 0`), `$` or `*` arguments, or a
/// formatting trait other than `Display` give `None`.
pub open spec fn format_with_spec(spec: Seq<char>, arg: Seq<char>) -> Option<Seq<char>> {
    let (fill, align, rest) = split_align(spec);
    let k = digit_prefix_len(rest);
    let width = rest.take(k as int);
    let after = rest.skip(k as int);
    if k > 0 && width[0] == '0' {
        None
    } else if digits_value(width) > usize::MAX {
        None
    } else if after.len() == 0 {
        Some(padded(arg, fill, align, digits_value(width)))
    } else if after[0] == '.' && after.len() > 1 && all_digits(after.skip(1)) && digits_value(after.skip(1))
        <= usize::MAX {
        let p = digits_value(after.skip(1));
        let a = if p < arg.len() { arg.take(p as int) } else { arg };
        Some(padded(a, fill, align, digits_value(width)))
    } else {
        None
    }
}

/// Whether `name` names the one argument: `static_base`, or the position 0.
pub open spec fn names_the_argument(name: Seq<char>) -> bool {
    name == "static_base"@ || (name.len() > 0 && all_digits(name) && digits_value(name) == 0)
}

/// The page made from `template` as `format!` makes it with the one named
/// argument `static_base`: `{{` and `}}` give a brace; a placeholder `{...}`
/// names the argument (`static_base`, the position `0`, or nothing, which
/// `format!` allows once since it takes the next position), may carry a
/// format specification after a `:`, and may end in white space; it gives
/// the static base as the specification lays it out. A template that
/// `format!` would refuse, or with a specification beyond those that
/// `format_with_spec` reads, gives `None`. `used` says whether a placeholder
/// without a name came before.
pub open spec fn render(template: Seq<char>, static_base: Seq<char>, used: bool) -> Option<Seq<char>>
    decreases template.len(),
{
    if template.len() == 0 {
        Some(seq![])
    } else if template.len() >= 2 && template[0] == '{' && template[1] == '{' {
        match render(template.skip(2), static_base, used) {
            Some(r) => Some(seq!['{'] + r),
            None => None,
        }
    } else if template.len() >= 2 && template[0] == '}' && template[1] == '}' {
        match render(template.skip(2), static_base, used) {
            Some(r) => Some(seq!['}'] + r),
            None => None,
        }
    } else if template[0] == '}' {
        None
    } else if template[0] == '{' {
        let close = index_of(template, '}');
        let inner = template.subrange(1, close as int);
        if close >= template.len() || index_of(inner, '{') < inner.len() {
            None
        } else {
            let body = trim_end(inner);
            let colon = index_of(body, ':');
            let name = body.take(colon as int);
            let spec = if colon < body.len() { body.skip(colon + 1 as int) } else { seq![] };
            if !(names_the_argument(name) || (name.len() == 0 && !used)) {
                None
            } else {
                match (format_with_spec(spec, static_base), render(template.skip(close + 1 as int), static_base, used || name.len() == 0)) {
                    (Some(x), Some(r)) => Some(x + r),
                    _ => None,
                }
            }
        }
    } else {
        match render(template.skip(1), static_base, used) {
            Some(r) => Some(seq![template[0]] + r),
            None => None,
        }
    }
}

/// How many ASCII digits `v[from..]` starts with.
fn digit_prefix(v: &Vec<char>, from: usize) -> (res: usize)
    requires
        from <= v.len(),
    ensures
        res == digit_prefix_len(v@.skip(from as int)),
        from + res <= v.len(),
{
    let mut i = from;
    while i < v.len() && '0' <= v[i] && v[i] <= '9'
        invariant
            from <= i <= v.len(),
            digit_prefix_len(v@.skip(from as int)) == (i - from) + digit_prefix_len(v@.skip(i as int)),
        decreases v.len() - i,
    {
        assert(v@.skip(i as int).skip(1) == v@.skip(i + 1));
        i += 1;
    }
    i - from
}

/// Appends `n` copies of `c`.
fn push_fill(out: &mut Vec<char>, c: char, n: usize)
    ensures
        final(out)@ == old(out)@ + fill_chars(c, n as nat),
{
    let mut k: usize = 0;
    while k < n
        invariant
            k <= n,
            out@ == old(out)@ + fill_chars(c, k as nat),
        decreases n - k,
    {
        out.push(c);
        assert(old(out)@ + fill_chars(c, (k + 1) as nat) == (old(out)@ + fill_chars(c, k as nat)).push(c));
        k += 1;
    }
}

proof fn lemma_digit_prefix_all_digits(s: Seq<char>)
    ensures
        digit_prefix_len(s) <= s.len(),
        all_digits(s.take(digit_prefix_len(s) as int)),
    decreases s.len(),
{
    if s.len() > 0 && is_digit(s[0]) {
        let t = s.skip(1);
        lemma_digit_prefix_all_digits(t);
        let p = s.take(digit_prefix_len(s) as int);
        assert forall|k: int| 0 <= k < p.len() implies is_digit(#[trigger] p[k]) by {
            if k > 0 {
                assert(p[k] == t.take(digit_prefix_len(t) as int)[k - 1]);
            }
        }
    }
}

/// Appends the characters `a`.
fn push_all(out: &mut Vec<char>, a: &Vec<char>)
    ensures
        final(out)@ == old(out)@ + a@,
{
    let mut k: usize = 0;
    while k < a.len()
        invariant
            k <= a.len(),
            out@ == old(out)@ + a@.take(k as int),
        decreases a.len() - k,
    {
        out.push(a[k]);
        assert(a@.take(k + 1) == a@.take(k as int).push(a@[k as int]));
        k += 1;
    }
    assert(a@.take(a.len() as int) == a@);
}

/// Appends `a` padded to `width` characters as `padded` says.
fn push_padded(out: &mut Vec<char>, a: &Vec<char>, fill: char, align: char, width: usize)
    ensures
        final(out)@ == old(out)@ + padded(a@, fill, align, width as nat),
{
    if width <= a.len() {
        push_all(out, a);
    } else {
        let n = width - a.len();
        if align == '>' {
            push_fill(out, fill, n);
            push_all(out, a);
        } else if align == '^' {
            push_fill(out, fill, n / 2);
            push_all(out, a);
            push_fill(out, fill, n - n / 2);
        } else {
            push_all(out, a);
            push_fill(out, fill, n);
        }
    }
}

/// Appends the argument as the format specification `spec` lays it out;
/// `false` (with `out` unchanged) where `format_with_spec` gives `None`.
fn push_formatted(out: &mut Vec<char>, spec: &Vec<char>, arg: &Vec<char>) -> (ok: bool)
    ensures
        match format_with_spec(spec@, arg@) {
            Some(x) => ok && final(out)@ == old(out)@ + x,
            None => !ok && final(out)@ == old(out)@,
        },
{
    let (fill, align, start): (char, char, usize) = if spec.len() >= 2 && (spec[1] == '<' || spec[1] == '>'
        || spec[1] == '^') {
        (spec[0], spec[1], 2)
    } else if spec.len() >= 1 && (spec[0] == '<' || spec[0] == '>' || spec[0] == '^') {
        (' ', spec[0], 1)
    } else {
        (' ', '<', 0)
    };
    let rest = subvec(spec, start, spec.len());
    assert(rest@ == spec@.skip(start as int));
    assert(split_align(spec@) == (fill, align, rest@));
    let k = digit_prefix(&rest, 0);
    assert(rest@.skip(0) == rest@);
    let width = subvec(&rest, 0, k);
    let after = subvec(&rest, k, rest.len());
    assert(width@ == rest@.take(k as int));
    assert(after@ == rest@.skip(k as int));
    proof {
        lemma_digit_prefix_all_digits(rest@);
    }
    if k > 0 && width[0] == '0' {
        return false;
    }
    let wv: u64 = if k == 0 {
        assert(digits_value(width@) == 0);
        0
    } else {
        assert(width@.subrange(0, width.len() as int) == width@);
        match digits_u64(&width, 0) {
            Some(x) => x,
            None => {
                return false;
            },
        }
    };
    if wv > 18446744073709551615u64 || wv as u128 > usize::MAX as u128 {
        return false;
    }
    let w = wv as usize;
    if after.len() == 0 {
        push_padded(out, arg, fill, align, w);
        return true;
    }
    if after[0] != '.' || after.len() <= 1 {
        return false;
    }
    assert(after@.subrange(1, after.len() as int) == after@.skip(1));
    let pv: u64 = match digits_u64(&after, 1) {
        Some(x) => x,
        None => {
            return false;
        },
    };
    if pv as u128 > usize::MAX as u128 {
        return false;
    }
    let p = pv as usize;
    let a = if p < arg.len() {
        subvec(arg, 0, p)
    } else {
        subvec(arg, 0, arg.len())
    };
    assert(arg@.subrange(0, arg.len() as int) == arg@);
    push_padded(out, &a, fill, align, w);
    true
}

/// Makes the page from its template and the static base.
pub fn index(template: &str, static_base: &str) -> (res: Option<String>)
    ensures
        match res {
            Some(s) => render(template@, static_base@, false) == Some(s@),
            None => render(template@, static_base@, false) is None,
        },
{
    let t = chars_of(template);
    let b = chars_of(static_base);
    let mut out: Vec<char> = Vec::new();
    let mut used = false;
    let mut i: usize = 0;
    assert(t@.skip(0) == t@);
    assert(forall|r: Seq<char>| out@ + r == r);
    while i < t.len()
        invariant
            i <= t.len(),
            t@ == template@,
            b@ == static_base@,
            render(template@, static_base@, false) == match render(t@.skip(i as int), b@, used) {
                Some(r) => Some(out@ + r),
                None => None,
            },
        decreases t.len() - i,
    {
        let ghost rest = t@.skip(i as int);
        let ghost before = out@;
        if t.len() - i >= 2 && t[i] == '{' && t[i + 1] == '{' {
            out.push('{');
            assert(rest.skip(2) == t@.skip(i + 2));
            assert(forall|r: Seq<char>| before + (seq!['{'] + r) == out@ + r);
            i += 2;
        } else if t.len() - i >= 2 && t[i] == '}' && t[i + 1] == '}' {
            out.push('}');
            assert(rest.skip(2) == t@.skip(i + 2));
            assert(forall|r: Seq<char>| before + (seq!['}'] + r) == out@ + r);
            i += 2;
        } else if t[i] == '}' {
            return None;
        } else if t[i] == '{' {
            let close = find_char(&t, i, '}');
            assert(rest == t@.skip(i as int));
            if close >= t.len() {
                return None;
            }
            let inner = subvec(&t, i + 1, close);
            assert(inner@ == rest.subrange(1, close - i));
            let open = find_char(&inner, 0, '{');
            assert(inner@.skip(0) == inner@);
            if open < inner.len() {
                return None;
            }
            let body = trim_end_chars(&inner);
            let colon = find_char(&body, 0, ':');
            assert(body@.skip(0) == body@);
            let name = subvec(&body, 0, colon);
            assert(name@ == body@.take(colon as int));
            let spec = if colon < body.len() {
                let sp = subvec(&body, colon + 1, body.len());
                assert(sp@ == body@.skip(colon + 1));
                sp
            } else {
                Vec::new()
            };
            let is_name = chars_match(&name, "static_base") || (name.len() > 0 && match digits_u64(&name, 0) {
                Some(v) => v == 0,
                None => false,
            });
            assert(name@.subrange(0, name.len() as int) == name@);
            if !(is_name || (name.len() == 0 && !used)) {
                return None;
            }
            let ghost out_before = out@;
            if !push_formatted(&mut out, &spec, &b) {
                return None;
            }
            assert(rest.skip(close - i + 1) == t@.skip(close + 1));
            assert(forall|x: Seq<char>, r: Seq<char>| out_before + (x + r) == (out_before + x) + r);
            used = used || name.len() == 0;
            i = close + 1;
        } else {
            out.push(t[i]);
            assert(rest.skip(1) == t@.skip(i + 1));
            assert(forall|r: Seq<char>| before + (seq![rest[0]] + r) == out@ + r);
            i += 1;
        }
    }
    assert(t@.skip(t.len() as int) == Seq::<char>::empty());
    assert(out@ + Seq::<char>::empty() == out@);
    Some(string_from_chars(&out))
}

/// A template without braces is the page as it stands.
pub proof fn law_template_without_braces_is_unchanged(template: Seq<char>, static_base: Seq<char>, used: bool)
    requires
        forall|k: int| 0 <= k < template.len() ==> #[trigger] template[k] != '{' && template[k] != '}',
    ensures
        render(template, static_base, used) == Some(template),
    decreases template.len(),
{
    if template.len() > 0 {
        let rest = template.skip(1);
        assert forall|k: int| 0 <= k < rest.len() implies #[trigger] rest[k] != '{' && rest[k] != '}' by {
            assert(rest[k] == template[k + 1]);
        }
        law_template_without_braces_is_unchanged(rest, static_base, used);
        assert(template[0] != '{' && template[0] != '}');
        assert(seq![template[0]] + rest == template);
    }
}

proof fn lemma_render_after_plain_text(pre: Seq<char>, rest: Seq<char>, static_base: Seq<char>, used: bool)
    requires
        forall|k: int| 0 <= k < pre.len() ==> #[trigger] pre[k] != '{' && pre[k] != '}',
    ensures
        render(pre + rest, static_base, used) == match render(rest, static_base, used) {
            Some(r) => Some(pre + r),
            None => None,
        },
    decreases pre.len(),
{
    if pre.len() > 0 {
        let p1 = pre.skip(1);
        assert forall|k: int| 0 <= k < p1.len() implies #[trigger] p1[k] != '{' && p1[k] != '}' by {
            assert(p1[k] == pre[k + 1]);
        }
        lemma_render_after_plain_text(p1, rest, static_base, used);
        let t = pre + rest;
        assert(t.skip(1) == p1 + rest);
        assert(t[0] == pre[0]);
        assert(forall|r: Seq<char>| seq![pre[0]] + (p1 + r) == pre + r);
    } else {
        assert(pre + rest == rest);
        assert(forall|r: Seq<char>| pre + r == r);
    }
}

/// The page's one placeholder, `{static_base}`, gives the static base where it
/// stands, the text around it kept as it is.
pub proof fn law_placeholder_gives_static_base(pre: Seq<char>, post: Seq<char>, static_base: Seq<char>, used: bool)
    requires
        forall|k: int| 0 <= k < pre.len() ==> #[trigger] pre[k] != '{' && pre[k] != '}',
        forall|k: int| 0 <= k < post.len() ==> #[trigger] post[k] != '{' && post[k] != '}',
    ensures
        render(pre + "{static_base}"@ + post, static_base, used) == Some(pre + static_base + post),
{
    reveal_strlit("{static_base}");
    reveal_strlit("static_base");
    let ph = "{static_base}"@;
    let t = ph + post;
    law_template_without_braces_is_unchanged(post, static_base, used);
    assert forall|j: int| 0 <= j < 12 implies #[trigger] t[j] != '}' by {
        assert(t[j] == ph[j]);
    }
    assert(t[12] == '}');
    lemma_index_of_is(t, '}', 12);
    let inner = t.subrange(1, 12);
    assert(inner == "static_base"@);
    lemma_index_of_is(inner, '{', 11);
    assert(trim_end(inner) == inner);
    lemma_index_of_is(inner, ':', 11);
    assert(inner.take(11) == inner);
    assert(t.skip(13) == post);
    let empty = Seq::<char>::empty();
    assert(empty.take(0) == empty);
    assert(empty.skip(0) == empty);
    assert(format_with_spec(empty, static_base) == Some(static_base));
    assert(render(t, static_base, used) == Some(static_base + post));
    lemma_render_after_plain_text(pre, t, static_base, used);
    assert(pre + ph + post == pre + t);
    assert(pre + (static_base + post) == pre + static_base + post);
}

/// The server serves the static files itself exactly when no other base is
/// configured: when none is configured, or the default one is.
pub proof fn law_local_static_files_when_unconfigured(configured: Option<Seq<char>>)
    ensures
        (match configured {
            Some(s) => s,
            None => default_static_base(),
        } == default_static_base()) <==> (configured is None || configured == Some(default_static_base())),
{
}

/// The date a client asks for updates since.
#[derive(Clone, Copy, Debug, PartialEq, Eq, Structural)]
pub struct DateField(pub Timestamp);

impl DateField {
    /// Reads the (already decoded) form value, an ISO 8601 date and time.
    pub fn from_form_value(decoded: &str) -> (res: Option<DateField>)
        ensures
            res == match chrono_parse_utc(decoded@) {
                Some(t) => Some(DateField(t)),
                None => None::<DateField>,
            },
    {
        match parse_utc_datetime(decoded) {
            Some(t) => Some(DateField(t)),
            None => None,
        }
    }
}

} // verus!
