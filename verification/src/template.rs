//! Destination templates: the `%u` placeholder and the per-stream token that
//! takes its place.

use vstd::prelude::*;
use vstd::string::*;

verus! {

/// `template` with every `%u` replaced by `token`, read from left to right.
pub open spec fn substitute(template: Seq<char>, token: Seq<char>) -> Seq<char>
    decreases template.len(),
{
    if template.len() < 2 {
        template
    } else if template[0] == '%' && template[1] == 'u' {
        token + substitute(template.skip(2), token)
    } else {
        seq![template[0]] + substitute(template.skip(1), token)
    }
}

/// Whether `template` holds the placeholder `%u` somewhere.
pub open spec fn has_placeholder(template: Seq<char>) -> bool {
    exists|at: int| placeholder_at(template, at)
}

/// Whether a `%u` starts at place `at` of `template`.
pub open spec fn placeholder_at(template: Seq<char>, at: int) -> bool {
    0 <= at && at + 1 < template.len() && template[at] == '%' && template[at + 1] == 'u'
}

/// One step of reading `template` from the left: what `substitute` makes of
/// the text from `at` on, in terms of the text that follows.
proof fn lemma_substitute_step(template: Seq<char>, token: Seq<char>, at: int)
    requires
        0 <= at < template.len(),
    ensures
        placeholder_at(template, at) ==> substitute(template.skip(at), token) == token
            + substitute(template.skip(at + 2), token),
        !placeholder_at(template, at) ==> substitute(template.skip(at), token) == seq![
            template[at],
        ] + substitute(template.skip(at + 1), token),
{
    let rest = template.skip(at);
    assert(rest[0] == template[at]);
    if placeholder_at(template, at) {
        assert(rest[1] == template[at + 1]);
        assert(rest.skip(2) =~= template.skip(at + 2));
    } else if rest.len() < 2 {
        assert(template.skip(at + 1) =~= Seq::<char>::empty());
        assert(rest =~= seq![template[at]] + substitute(template.skip(at + 1), token));
    } else {
        assert(rest[1] == template[at + 1]);
        assert(rest.skip(1) =~= template.skip(at + 1));
    }
}

/// Puts `token` in the place of every `%u` of `template`.
pub fn substitute_token(template: &str, token: &str) -> (filled: String)
    ensures
        filled@ == substitute(template@, token@),
{
    let len = template.unicode_len();
    let mut filled = String::new();
    // The text from `start` up to the character being read has not been
    // copied yet; `percent` says that its last character is a `%`.
    let mut start: usize = 0;
    let mut at: usize = 0;
    let mut percent = false;
    assert(template@.skip(0) =~= template@);
    assert(template@.subrange(0, 0) =~= Seq::<char>::empty());
    for c in it: template.chars()
        invariant
            it.seq() == template@,
            len == template@.len(),
            at == it.index(),
            start <= at <= len,
            percent ==> start < at && template@[at - 1] == '%',
            substitute(template@, token@) == filled@ + template@.subrange(
                start as int,
                at - if percent { 1int } else { 0int },
            ) + substitute(template@.skip(at - if percent { 1int } else { 0int }), token@),
    {
        proof {
            lemma_substitute_step(template@, token@, at as int);
            if percent {
                lemma_substitute_step(template@, token@, at - 1);
                assert(template@.subrange(start as int, at as int) =~= template@.subrange(
                    start as int,
                    at - 1,
                ) + seq![template@[at - 1]]);
            }
            assert(template@.subrange(start as int, at + 1) =~= template@.subrange(
                start as int,
                at as int,
            ) + seq![template@[at as int]]);
        }
        if percent && c == 'u' {
            filled.append(template.substring_char(start, at - 1));
            filled.append(token);
            start = at + 1;
            percent = false;
            assert(template@.subrange(start as int, start as int) =~= Seq::<char>::empty());
        } else {
            percent = c == '%';
        }
        at = at + 1;
    }
    proof {
        if percent {
            assert(template@.skip(len - 1) =~= seq![template@[len - 1]]);
            assert(template@.subrange(start as int, len as int) =~= template@.subrange(
                start as int,
                len - 1,
            ) + seq![template@[len - 1]]);
        } else {
            assert(template@.skip(len as int) =~= Seq::<char>::empty());
        }
    }
    filled.append(template.substring_char(start, len));
    filled
}

/// Whether `c` is a lower-case hexadecimal digit.
pub open spec fn is_hex_digit(c: char) -> bool {
    ('0' <= c && c <= '9') || ('a' <= c && c <= 'f')
}

/// The shape of a token: 36 characters, hyphens at places 8, 13, 18 and 23,
/// lower-case hexadecimal digits everywhere else.
pub open spec fn is_token(text: Seq<char>) -> bool {
    &&& text.len() == 36
    &&& forall|k: int|
        0 <= k < 36 ==> if k == 8 || k == 13 || k == 18 || k == 23 {
            #[trigger] text[k] == '-'
        } else {
            is_hex_digit(#[trigger] text[k])
        }
}

/// Draws a token with `uuid::Uuid::new_v4` and writes it out with the
/// `Display` of `uuid::Uuid`, the hyphenated lower-case form. Taken on trust:
/// whatever the random bits, the text has the shape of a token. Nothing is
/// claimed about which token comes back; two calls may or may not differ.
/// The call does not return where the system's source of randomness fails.
#[verifier::external_body]
pub(crate) fn fresh_token() -> (token: String)
    ensures
        is_token(token@),
{
    uuid::Uuid::new_v4().to_string()
}

/// Whether reading `template` from the left meets a placeholder.
pub open spec fn scan_finds(template: Seq<char>) -> bool
    decreases template.len(),
{
    if template.len() < 2 {
        false
    } else if template[0] == '%' && template[1] == 'u' {
        true
    } else {
        scan_finds(template.skip(1))
    }
}

/// A template that holds a placeholder is one in which reading from the left
/// meets one.
pub proof fn lemma_scan_finds_placeholder(template: Seq<char>, at: int)
    requires
        placeholder_at(template, at),
    ensures
        scan_finds(template),
    decreases at,
{
    if !(template[0] == '%' && template[1] == 'u') {
        let rest = template.skip(1);
        assert(rest[at - 1] == template[at]);
        assert(rest[at] == template[at + 1]);
        lemma_scan_finds_placeholder(rest, at - 1);
    }
}

/// A token that is no longer gives a text that is no longer, and a strictly
/// shorter one gives a strictly shorter text where a placeholder is met.
pub proof fn lemma_substitute_len(template: Seq<char>, short: Seq<char>, long: Seq<char>)
    requires
        short.len() <= long.len(),
    ensures
        substitute(template, short).len() <= substitute(template, long).len(),
        scan_finds(template) && short.len() < long.len() ==> substitute(template, short).len()
            < substitute(template, long).len(),
    decreases template.len(),
{
    if template.len() < 2 {
    } else if template[0] == '%' && template[1] == 'u' {
        lemma_substitute_len(template.skip(2), short, long);
    } else {
        lemma_substitute_len(template.skip(1), short, long);
    }
}

/// Two different tokens of one length give two different texts where a
/// placeholder is met.
pub proof fn lemma_substitute_same_len(template: Seq<char>, first: Seq<char>, second: Seq<char>)
    requires
        scan_finds(template),
        first.len() == second.len(),
        first != second,
    ensures
        substitute(template, first) != substitute(template, second),
    decreases template.len(),
{
    let a = substitute(template, first);
    let b = substitute(template, second);
    if template[0] == '%' && template[1] == 'u' {
        if a == b {
            assert(a.subrange(0, first.len() as int) =~= first);
            assert(b.subrange(0, second.len() as int) =~= second);
        }
    } else {
        let rest = template.skip(1);
        lemma_substitute_same_len(rest, first, second);
        if a == b {
            assert(a.skip(1) =~= substitute(rest, first));
            assert(b.skip(1) =~= substitute(rest, second));
        }
    }
}

/// A template without a placeholder is left as it is, whatever the token.
pub proof fn lemma_substitute_without_placeholder(template: Seq<char>, token: Seq<char>)
    requires
        !has_placeholder(template),
    ensures
        substitute(template, token) == template,
    decreases template.len(),
{
    if template.len() >= 2 {
        assert(!placeholder_at(template, 0));
        let rest = template.skip(1);
        assert forall|at: int| !placeholder_at(rest, at) by {
            if placeholder_at(rest, at) {
                assert(placeholder_at(template, at + 1));
            }
        }
        lemma_substitute_without_placeholder(rest, token);
        assert(seq![template[0]] + rest =~= template);
    }
}

/// A template that holds a placeholder sends two different tokens to two
/// different texts.
pub proof fn lemma_substitute_injective(template: Seq<char>, first: Seq<char>, second: Seq<char>)
    requires
        has_placeholder(template),
        first != second,
    ensures
        substitute(template, first) != substitute(template, second),
{
    let at = choose|at: int| placeholder_at(template, at);
    lemma_scan_finds_placeholder(template, at);
    if first.len() < second.len() {
        lemma_substitute_len(template, first, second);
    } else if second.len() < first.len() {
        lemma_substitute_len(template, second, first);
    } else {
        lemma_substitute_same_len(template, first, second);
    }
}

} // verus!
