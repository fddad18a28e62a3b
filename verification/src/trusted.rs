//! Bindings to the outside template engine and to the pieces of std that the
//! verifier gives no specification for. Every `external_body` function here is
//! trusted: its contract states what the outside code is documented to do, and
//! the names below stand for results that are functions of the arguments alone.

use vstd::prelude::*;
use vstd::string::StrSliceExecFns;

verus! {

/// What `tinytemplate` produces when the template `t` is rendered against a
/// context holding the string values `q` under `query` and `qe` under
/// `query_escaped`; `Err` carries the engine's message for a malformed
/// template or a failed lookup.
pub uninterp spec fn query_render(t: Seq<char>, q: Seq<char>, qe: Seq<char>) -> Result<
    Seq<char>,
    Seq<char>,
>;

/// What `tinytemplate` produces when the display template `t` is rendered
/// against a context holding the entry fields and the four index values
/// (each given as its decimal text).
pub uninterp spec fn display_render(
    t: Seq<char>,
    identifier: Seq<char>,
    title: Seq<char>,
    confidence: Seq<char>,
    index: Seq<char>,
    one_based_index: Seq<char>,
    display_index: Seq<char>,
    one_based_display_index: Seq<char>,
) -> Result<Seq<char>, Seq<char>>;

/// What `str::escape_debug` produces for a given string.
pub uninterp spec fn debug_escaped(s: Seq<char>) -> Seq<char>;

/// What UTF-8 decoding yields on a byte sequence: `None` exactly on invalid
/// UTF-8.
pub uninterp spec fn utf8_decode(b: Seq<u8>) -> Option<Seq<char>>;

pub open spec fn is_lower_alpha(c: char) -> bool {
    'a' <= c <= 'z'
}

/// The lower-case letters of a text, in order.
pub open spec fn letters_of(s: Seq<char>) -> Seq<char>
    decreases s.len(),
{
    if s.len() == 0 {
        Seq::empty()
    } else if is_lower_alpha(s.last()) {
        letters_of(s.drop_last()).push(s.last())
    } else {
        letters_of(s.drop_last())
    }
}

pub open spec fn if_not_letters() -> Seq<char> {
    seq!['i', 'f', 'n', 'o', 't']
}

/// A block tag that reads as the words `if` `not` and nothing more: the
/// engine's compiler slices past the end of that block and panics. Every
/// such block's lower-case letters, in order, are exactly `ifnot`, so this
/// catches all of them (and keeps out a few harmless neighbours).
pub open spec fn block_panics(t: Seq<char>, i: int, j: int) -> bool {
    &&& 0 <= i
    &&& i + 1 < j
    &&& j + 1 < t.len()
    &&& t[i] == '{' && t[i + 1] == '{'
    &&& t[j] == '}' && t[j + 1] == '}'
    &&& letters_of(t.subrange(i + 2, j)) == if_not_letters()
}

/// Inside a block opened at `i`, the words `if` `not` followed directly by
/// a character outside ASCII, the `t` of `not` standing at `k + 2`: the
/// engine's negation handling slices the block's rest four bytes in, which
/// lands inside that character and panics.
pub open spec fn boundary_prefix(t: Seq<char>, i: int, k: int) -> bool {
    &&& i + 2 <= k
    &&& k + 3 < t.len()
    &&& t[k] == 'n' && t[k + 1] == 'o' && t[k + 2] == 't'
    &&& (t[k + 3] as u32) >= 128
    &&& letters_of(t.subrange(i + 2, k + 3)) == if_not_letters()
}

/// A block tag holding such a prefix before its closer.
pub open spec fn block_panics_at(t: Seq<char>, i: int, j: int, k: int) -> bool {
    &&& 0 <= i
    &&& i + 1 < j
    &&& j + 1 < t.len()
    &&& t[i] == '{' && t[i + 1] == '{'
    &&& t[j] == '}' && t[j + 1] == '}'
    &&& boundary_prefix(t, i, k)
    &&& k + 3 < j
}

/// Template texts the engine compiles without panicking. Four shapes crash
/// its compiler rather than erroring and are kept out of every template
/// call: a `{#}` anywhere (the comment closer is found overlapping the
/// opener and a slice reverses), a lone `\` as the last character (the
/// escape handling slices past the end of the input), a double-braced block
/// holding exactly the words `if` `not` (the negation handling slices past
/// the end of the block), and a double-braced block whose words `if` `not`
/// are followed directly by a character outside ASCII (the same slice lands
/// inside that character).
pub open spec fn template_ok(t: Seq<char>) -> bool {
    &&& (t.len() > 0 ==> t.last() != '\\')
    &&& forall|i: int|
        0 <= i && i + 2 < t.len() ==> !(#[trigger] t[i] == '{' && t[i + 1] == '#' && t[i + 2]
            == '}')
    &&& forall|i: int, j: int| !block_panics(t, i, j)
    &&& forall|i: int, j: int, k: int| !block_panics_at(t, i, j, k)
}

/// Whether the engine accepts this template text (see `template_ok`); the
/// caller of a rendering function tests with this first.
pub fn template_admissible(t: &str) -> (r: bool)
    ensures
        r == template_ok(t@),
{
    let n = t.unicode_len();
    if n > 0 && t.get_char(n - 1) == '\\' {
        return false;
    }
    if n < 3 {
        return true;
    }
    let mut i: usize = 0;
    while i < n - 2
        invariant
            3 <= n == t@.len(),
            i <= n - 2,
            t@.last() != '\\',
            forall|j: int|
                0 <= j < i ==> !(#[trigger] t@[j] == '{' && t@[j + 1] == '#' && t@[j + 2] == '}'),
        decreases n - i,
    {
        if t.get_char(i) == '{' && t.get_char(i + 1) == '#' && t.get_char(i + 2) == '}' {
            return false;
        }
        i = i + 1;
    }
    let mut a: usize = 0;
    while a < n - 1
        invariant
            3 <= n == t@.len(),
            a <= n - 1,
            forall|x: int, y: int| x < a ==> !block_panics(t@, x, y),
            forall|x: int, y: int, k: int| x < a ==> !block_panics_at(t@, x, y, k),
        decreases n - a,
    {
        if t.get_char(a) == '{' && t.get_char(a + 1) == '{' {
            // walk the text after the opener; at each closer, the letters
            // gathered so far are that block's, and `armed` says whether an
            // `if not<non-ascii>` prefix stands before the closer
            let mut letters: Vec<char> = Vec::new();
            let mut b: usize = a + 2;
            let mut armed: bool = false;
            let ghost mut armk: int = 0;
            proof {
                assert(letters@ =~= letters_of(t@.subrange(a as int + 2, a as int + 2)));
            }
            while b < n - 1
                invariant
                    3 <= n == t@.len(),
                    a + 2 <= b <= n,
                    a < n - 1,
                    t@[a as int] == '{' && t@[a as int + 1] == '{',
                    letters@ == letters_of(t@.subrange(a as int + 2, b as int)),
                    forall|y: int| y < b ==> !block_panics(t@, a as int, y),
                    forall|y: int, k: int| y < b ==> !block_panics_at(t@, a as int, y, k),
                    armed ==> boundary_prefix(t@, a as int, armk) && armk + 3 < b,
                    !armed ==> forall|k: int|
                        !(#[trigger] boundary_prefix(t@, a as int, k) && k + 3 < b),
                decreases n - b,
            {
                let c = t.get_char(b);
                if c == '}' && t.get_char(b + 1) == '}' {
                    if letters_are_if_not(&letters) {
                        proof {
                            assert(block_panics(t@, a as int, b as int));
                        }
                        return false;
                    }
                    if armed {
                        proof {
                            assert(block_panics_at(t@, a as int, b as int, armk));
                        }
                        return false;
                    }
                }
                // does this character complete an `if not<non-ascii>` prefix?
                if !armed && (c as u32) >= 128 && b - a >= 5 {
                    if t.get_char(b - 3) == 'n' && t.get_char(b - 2) == 'o' && t.get_char(b - 1)
                        == 't' && letters_are_if_not(&letters) {
                        armed = true;
                        proof {
                            armk = b as int - 3;
                            assert(boundary_prefix(t@, a as int, armk));
                        }
                    }
                }
                proof {
                    if !armed {
                        assert forall|k: int|
                            !(#[trigger] boundary_prefix(t@, a as int, k) && k + 3 < b as int
                                + 1) by {
                            if boundary_prefix(t@, a as int, k) && k + 3 == b as int {
                                assert(t@[b as int] as u32 >= 128);
                                assert(letters_of(t@.subrange(a as int + 2, b as int))
                                    == if_not_letters());
                            }
                        }
                    }
                }
                if 'a' <= c && c <= 'z' {
                    letters.push(c);
                }
                proof {
                    assert(t@.subrange(a as int + 2, b as int + 1).drop_last() =~= t@.subrange(
                        a as int + 2,
                        b as int,
                    ));
                    assert(t@.subrange(a as int + 2, b as int + 1).last() == t@[b as int]);
                }
                b = b + 1;
            }
            proof {
                assert forall|y: int| !block_panics(t@, a as int, y) by {
                    if block_panics(t@, a as int, y) {
                        assert(y + 1 < t@.len());
                        assert(y < b);
                    }
                }
                assert forall|y: int, k: int| !block_panics_at(t@, a as int, y, k) by {
                    if block_panics_at(t@, a as int, y, k) {
                        assert(y + 1 < t@.len());
                        assert(y < b);
                    }
                }
            }
        }
        a = a + 1;
    }
    true
}

/// Whether the letters gathered so far read exactly `ifnot`.
fn letters_are_if_not(v: &Vec<char>) -> (r: bool)
    ensures
        r == (v@ == if_not_letters()),
{
    if v.len() == 5 && v[0] == 'i' && v[1] == 'f' && v[2] == 'n' && v[3] == 'o' && v[4] == 't' {
        proof {
            assert(v@ =~= if_not_letters());
        }
        true
    } else {
        proof {
            if v@ == if_not_letters() {
                assert(v@.len() == 5 && v@[0] == 'i' && v@[1] == 'f' && v@[2] == 'n' && v@[3]
                    == 'o' && v@[4] == 't');
            }
        }
        false
    }
}

pub open spec fn res_view(r: Result<String, String>) -> Result<Seq<char>, Seq<char>> {
    match r {
        Ok(s) => Ok(s@),
        Err(m) => Err(m@),
    }
}

pub open spec fn opt_str_view(r: Option<String>) -> Option<Seq<char>> {
    match r {
        Some(s) => Some(s@),
        None => None,
    }
}

/// Relies on `tinytemplate::TinyTemplate` (`new`, `add_template`, `render`):
/// rendering a registered template against a fixed map of named string values
/// is a function of the template text and those values alone; failures are
/// reported through `Err` with the engine's message. The template shapes its
/// compiler panics on are excluded by `template_ok`.
#[verifier::external_body]
pub(crate) fn render_query_template(tpl: &str, query: &str, query_escaped: &str) -> (r: Result<
    String,
    String,
>)
    requires
        template_ok(tpl@),
    ensures
        res_view(r) == query_render(tpl@, query@, query_escaped@),
{
    let mut ctx = std::collections::HashMap::new();
    ctx.insert("query", query);
    ctx.insert("query_escaped", query_escaped);
    let mut tt = tinytemplate::TinyTemplate::new();
    if let Err(e) = tt.add_template("main", tpl) {
        return Err(e.to_string());
    }
    tt.render("main", &ctx).map_err(|e| e.to_string())
}

/// Relies on `tinytemplate::TinyTemplate` (`new`, `add_template`, `render`),
/// as `render_query_template` does, for the results display line; the same
/// panicking template shapes are excluded by `template_ok`.
#[verifier::external_body]
pub(crate) fn render_display_template(
    tpl: &str,
    identifier: &str,
    title: &str,
    confidence: &str,
    index: &str,
    one_based_index: &str,
    display_index: &str,
    one_based_display_index: &str,
) -> (r: Result<String, String>)
    requires
        template_ok(tpl@),
    ensures
        res_view(r) == display_render(
            tpl@,
            identifier@,
            title@,
            confidence@,
            index@,
            one_based_index@,
            display_index@,
            one_based_display_index@,
        ),
{
    let mut ctx = std::collections::HashMap::new();
    ctx.insert("identifier", identifier);
    ctx.insert("title", title);
    ctx.insert("confidence", confidence);
    ctx.insert("index", index);
    ctx.insert("one_based_index", one_based_index);
    ctx.insert("display_index", display_index);
    ctx.insert("one_based_display_index", one_based_display_index);
    let mut tt = tinytemplate::TinyTemplate::new();
    if let Err(e) = tt.add_template("main", tpl) {
        return Err(e.to_string());
    }
    tt.render("main", &ctx).map_err(|e| e.to_string())
}

/// Relies on `str::escape_debug` (std): the escaped text depends on the
/// characters alone.
#[verifier::external_body]
pub(crate) fn escape_debug_text(s: &str) -> (r: String)
    ensures
        r@ == debug_escaped(s@),
{
    s.escape_debug().to_string()
}

/// Relies on `String::from_utf8` (std): `Ok` exactly on valid UTF-8, and a
/// byte sequence that is all ASCII decodes to the characters of the same
/// codes.
#[verifier::external_body]
pub(crate) fn bytes_to_string(v: &Vec<u8>) -> (r: Option<String>)
    ensures
        opt_str_view(r) == utf8_decode(v@),
        (forall|i: int| 0 <= i < v@.len() ==> v@[i] < 128) ==> opt_str_view(r) == Some(
            v@.map_values(|b: u8| b as char),
        ),
{
    String::from_utf8(v.clone()).ok()
}

/// Relies on `String::push` (std): appends the character.
pub assume_specification[ String::push ](s: &mut String, c: char)
    ensures
        final (s)@ == old(s)@.push(c),
;

/// Relies on `String::pop` (std): removes and returns the last character, if
/// any.
pub assume_specification[ String::pop ](s: &mut String) -> (r: Option<char>)
    ensures
        old(s)@.len() == 0 ==> r is None && final (s)@ == old(s)@,
        old(s)@.len() > 0 ==> r == Some(old(s)@.last()) && final (s)@ == old(s)@.drop_last(),
;

} // verus!
