//! The date template of the configuration file: tokens `d`, `m` and `y`
//! between slashes, upper or lower case, compiled into a strftime format
//! with the same tokens in the same places.

use crate::config::{ConfigError, ConfigErrorView};
use crate::text::{chars_of, lemma_split_nonempty, pieces_view, split, split_at_each, text_of};
use vstd::prelude::*;

verus! {

/// The format specifier that a token of the template stands for: `%d` for
/// the day of the month, `%m` for the month, `%Y` for the year in full.
/// Anything but a single `d`, `m` or `y` is no token.
pub open spec fn specifier(token: Seq<char>) -> Option<Seq<char>> {
    if token.len() != 1 {
        None
    } else if token[0] == 'd' || token[0] == 'D' {
        Some(seq!['%', 'd'])
    } else if token[0] == 'm' || token[0] == 'M' {
        Some(seq!['%', 'm'])
    } else if token[0] == 'y' || token[0] == 'Y' {
        Some(seq!['%', 'Y'])
    } else {
        None
    }
}

/// A template is well formed where each piece between slashes is a token.
pub open spec fn is_template(raw: Seq<char>) -> bool {
    forall|i: int|
        0 <= i < split(raw, '/').len() ==> specifier(#[trigger] split(raw, '/')[i]) is Some
}

/// The specifiers of the given tokens, one for one.
pub open spec fn specifiers(tokens: Seq<Seq<char>>) -> Seq<Seq<char>> {
    Seq::new(tokens.len(), |i: int| specifier(tokens[i]).unwrap())
}

/// The pieces in a row with `sep` between neighbours.
pub open spec fn join(pieces: Seq<Seq<char>>, sep: char) -> Seq<char>
    decreases pieces.len(),
{
    if pieces.len() == 0 {
        Seq::empty()
    } else if pieces.len() == 1 {
        pieces[0]
    } else {
        join(pieces.drop_last(), sep).push(sep) + pieces.last()
    }
}

/// The strftime format that a template compiles to.
pub open spec fn compiled(raw: Seq<char>) -> Seq<char> {
    join(specifiers(split(raw, '/')), '/')
}

/// How often `c` occurs in `s`.
pub open spec fn occurrences(s: Seq<char>, c: char) -> nat
    decreases s.len(),
{
    if s.len() == 0 {
        0
    } else if s.last() == c {
        occurrences(s.drop_last(), c) + 1
    } else {
        occurrences(s.drop_last(), c)
    }
}

/// The letter of the specifier of a token, if it is one.
fn specifier_letter(token: &Vec<char>) -> (r: Option<char>)
    ensures
        match r {
            Some(letter) => specifier(token@) == Some(seq!['%', letter]),
            None => specifier(token@) is None,
        },
{
    if token.len() != 1 {
        None
    } else if token[0] == 'd' || token[0] == 'D' {
        Some('d')
    } else if token[0] == 'm' || token[0] == 'M' {
        Some('m')
    } else if token[0] == 'y' || token[0] == 'Y' {
        Some('Y')
    } else {
        None
    }
}

/// Compiles a date template. It succeeds exactly on the well-formed
/// templates; any other text is handed back in the error.
pub fn parse_date(raw_date: &str) -> (r: Result<String, ConfigError>)
    ensures
        match r {
            Ok(format) => is_template(raw_date@) && format@ == compiled(raw_date@),
            Err(e) => !is_template(raw_date@) && e@ == (ConfigErrorView::InvalidDateFormat {
                template: raw_date@,
            }),
        },
{
    let chars = chars_of(raw_date);
    let tokens = split_at_each(&chars, '/');
    let ghost pieces = split(raw_date@, '/');
    proof {
        lemma_split_nonempty(raw_date@, '/');
    }
    let mut out: Vec<char> = Vec::new();
    let mut i: usize = 0;
    while i < tokens.len()
        invariant
            i <= tokens.len() == pieces.len(),
            pieces == split(raw_date@, '/'),
            pieces_view(tokens@) == pieces,
            forall|j: int| 0 <= j < i ==> specifier(#[trigger] pieces[j]) is Some,
            out@ == join(specifiers(pieces).take(i as int), '/'),
        decreases tokens.len() - i,
    {
        assert(tokens[i as int]@ == pieces[i as int]);
        match specifier_letter(&tokens[i]) {
            None => {
                return Err(ConfigError::InvalidDateFormat { template: raw_date.to_owned() });
            },
            Some(letter) => {
                if i > 0 {
                    out.push('/');
                }
                out.push('%');
                out.push(letter);
                assert(specifiers(pieces).take(i + 1).drop_last() =~= specifiers(pieces).take(
                    i as int,
                ));
            },
        }
        i += 1;
    }
    assert(specifiers(pieces).take(i as int) =~= specifiers(pieces));
    Ok(text_of(&out))
}

/// A text without the separator is its own single piece.
proof fn lemma_split_plain(s: Seq<char>, sep: char)
    requires
        occurrences(s, sep) == 0,
    ensures
        split(s, sep) == seq![s],
    decreases s.len(),
{
    if s.len() > 0 {
        lemma_split_plain(s.drop_last(), sep);
        assert(s.drop_last().push(s.last()) =~= s);
    } else {
        assert(s =~= Seq::<char>::empty());
    }
}

/// Text without the separator, put behind another, lengthens its last piece.
proof fn lemma_split_extended(a: Seq<char>, b: Seq<char>, sep: char)
    requires
        occurrences(b, sep) == 0,
    ensures
        split(a, sep).len() >= 1,
        split(a + b, sep) == split(a, sep).drop_last().push(split(a, sep).last() + b),
    decreases b.len(),
{
    lemma_split_nonempty(a, sep);
    if b.len() > 0 {
        let shorter = b.drop_last();
        lemma_split_extended(a, shorter, sep);
        assert((a + b).drop_last() =~= a + shorter);
        assert(split(a + shorter, sep).last().push(b.last()) =~= split(a, sep).last() + b);
    }
}

/// Splitting what was joined gives the pieces back, where no piece holds
/// the separator.
pub proof fn lemma_split_join(pieces: Seq<Seq<char>>, sep: char)
    requires
        pieces.len() >= 1,
        forall|i: int| 0 <= i < pieces.len() ==> occurrences(#[trigger] pieces[i], sep) == 0,
    ensures
        split(join(pieces, sep), sep) == pieces,
    decreases pieces.len(),
{
    if pieces.len() == 1 {
        lemma_split_plain(pieces[0], sep);
    } else {
        let init = pieces.drop_last();
        lemma_split_join(init, sep);
        let head = join(init, sep).push(sep);
        assert(head.drop_last() =~= join(init, sep));
        lemma_split_extended(head, pieces.last(), sep);
    }
}

/// A text has one piece more than it has separators.
pub proof fn lemma_split_count(s: Seq<char>, sep: char)
    ensures
        split(s, sep).len() == occurrences(s, sep) + 1,
    decreases s.len(),
{
    if s.len() > 0 {
        lemma_split_count(s.drop_last(), sep);
    }
}

/// Compilation keeps the shape of a well-formed template: the format has as
/// many slashes as the template, and between them, in the same order, the
/// specifier of each token.
pub proof fn lemma_compiled_keeps_order(raw: Seq<char>)
    requires
        is_template(raw),
    ensures
        split(compiled(raw), '/') == specifiers(split(raw, '/')),
        split(compiled(raw), '/').len() == split(raw, '/').len(),
        occurrences(compiled(raw), '/') == occurrences(raw, '/'),
{
    let tokens = split(raw, '/');
    lemma_split_nonempty(raw, '/');
    assert forall|i: int| 0 <= i < tokens.len() implies occurrences(
        #[trigger] specifiers(tokens)[i],
        '/',
    ) == 0 by {
        let piece = specifiers(tokens)[i];
        assert(occurrences(piece.drop_last().drop_last(), '/') == 0);
        assert(occurrences(piece.drop_last(), '/') == 0);
    }
    lemma_split_join(specifiers(tokens), '/');
    lemma_split_count(raw, '/');
    lemma_split_count(compiled(raw), '/');
}

} // verus!
