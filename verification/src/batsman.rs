//! Reading the name of the dismissed batsman out of a line of commentary.
use vstd::prelude::*;
use crate::text::{
    begins_with, byte_len, byte_len_below, chars_of, find, first_index_of, slice_chars, starts_with,
    lemma_index_from_occurs, lemma_trimmed_idempotent, string_of, trim, trim_start_matches, trimmed, without_leading,
};

verus! {

/// Whether `n` is acceptable as a batsman's name read from text: not empty
/// and shorter than 40 bytes.
pub open spec fn fits_name(n: Seq<char>) -> bool {
    n.len() > 0 && byte_len(n) < 40
}

/// The name in a line of the shape "Bowler to Batsman, OUT ..." or
/// "Bowler to Batsman OUT ...": the trimmed text between the first " to "
/// and the first ", OUT" after it (or, when there is none, the first " OUT").
pub open spec fn name_before_out(clean: Seq<char>) -> Option<Seq<char>> {
    match first_index_of(clean, " to "@) {
        Some(t) => {
            let after = clean.skip(t + 4);
            let out = match first_index_of(after, ", OUT"@) {
                Some(o) => Some(o),
                None => first_index_of(after, " OUT"@),
            };
            match out {
                Some(o) => {
                    let name = trimmed(after.take(o));
                    if fits_name(name) {
                        Some(name)
                    } else {
                        None
                    }
                },
                None => None,
            }
        },
        None => None,
    }
}

/// The line with a leading "OUT!", "OUT," or "OUT " marker taken off: every
/// leading "OUT!", then every leading "OUT,", then every leading "OUT", then
/// the white space around what is left.
pub open spec fn after_out_marker(clean: Seq<char>) -> Seq<char> {
    if begins_with(clean, "OUT!"@) || begins_with(clean, "OUT,"@) || begins_with(clean, "OUT "@) {
        trimmed(without_leading(without_leading(without_leading(clean, "OUT!"@), "OUT,"@), "OUT"@))
    } else {
        clean
    }
}

/// One step of the search for the earliest dismissal keyword: the index of
/// `kw` in `w` replaces `acc` when it is found and comes strictly earlier.
pub open spec fn keyword_step(w: Seq<char>, kw: Seq<char>, acc: Option<int>) -> Option<int> {
    match first_index_of(w, kw) {
        Some(i) => if acc is None || i < acc->0 {
            Some(i)
        } else {
            acc
        },
        None => acc,
    }
}

/// The earliest index in `w` of any of the dismissal keywords " c ", " lbw",
/// " b ", " run out", " st ", " hit wicket" and " retired".
pub open spec fn earliest_keyword(w: Seq<char>) -> Option<int> {
    keyword_step(w, " retired"@, keyword_step(w, " hit wicket"@, keyword_step(w, " st "@,
        keyword_step(w, " run out"@, keyword_step(w, " b "@, keyword_step(w, " lbw"@,
        keyword_step(w, " c "@, None)))))))
}

/// The name in a line of the shape "Batsman c Fielder b Bowler": the trimmed
/// text before the earliest dismissal keyword.
pub open spec fn name_before_keyword(w: Seq<char>) -> Option<Seq<char>> {
    match earliest_keyword(w) {
        Some(i) => {
            let candidate = trimmed(w.take(i));
            if fits_name(candidate) {
                Some(candidate)
            } else {
                None
            }
        },
        None => None,
    }
}

/// The batsman's name that a line of commentary gives, if any.
pub open spec fn batsman_from_text(text: Seq<char>) -> Option<Seq<char>> {
    let clean = trimmed(text);
    if clean.len() == 0 {
        None
    } else {
        match name_before_out(clean) {
            Some(n) => Some(n),
            None => name_before_keyword(after_out_marker(clean)),
        }
    }
}

fn accept_name(name: &Vec<char>) -> (r: Option<String>)
    ensures
        match r {
            Some(s) => fits_name(name@) && s@ == name@,
            None => !fits_name(name@),
        },
{
    if name.len() > 0 && byte_len_below(name, 40) {
        Some(string_of(name))
    } else {
        None
    }
}

fn find_name_before_out(clean: &Vec<char>) -> (r: Option<String>)
    ensures
        match r {
            Some(s) => name_before_out(clean@) == Some(s@),
            None => name_before_out(clean@) is None,
        },
{
    let to = chars_of(" to ");
    proof {
        reveal_strlit(" to ");
    }
    match find(clean, &to) {
        Some(t) => {
            let n = clean.len();
            let after = slice_chars(clean, t + to.len(), n);
            assert(after@ =~= clean@.skip(t + 4));
            let comma_out = chars_of(", OUT");
            let space_out = chars_of(" OUT");
            let out = match find(&after, &comma_out) {
                Some(o) => Some(o),
                None => find(&after, &space_out),
            };
            match out {
                Some(o) => {
                    let head = slice_chars(&after, 0, o);
                    assert(head@ =~= after@.take(o as int));
                    let name = trim(&head);
                    accept_name(&name)
                },
                None => None,
            }
        },
        None => None,
    }
}

fn strip_out_marker(clean: &Vec<char>) -> (out: Vec<char>)
    ensures
        out@ == after_out_marker(clean@),
{
    let bang = chars_of("OUT!");
    let comma = chars_of("OUT,");
    let space = chars_of("OUT ");
    if starts_with(clean, &bang) || starts_with(clean, &comma) || starts_with(clean, &space) {
        let bare = chars_of("OUT");
        let a = trim_start_matches(clean, &bang);
        let b = trim_start_matches(&a, &comma);
        let c = trim_start_matches(&b, &bare);
        trim(&c)
    } else {
        slice_chars(clean, 0, clean.len())
    }
}

/// An optional position as an optional integer.
pub open spec fn as_index(o: Option<usize>) -> Option<int> {
    match o {
        Some(i) => Some(i as int),
        None => None,
    }
}

fn step_keyword(w: &Vec<char>, kw: &str, acc: Option<usize>) -> (r: Option<usize>)
    requires
        acc matches Some(a) ==> a <= w.len(),
    ensures
        r matches Some(i) ==> i <= w.len(),
        match r {
            Some(i) => keyword_step(w@, kw@, as_index(acc)) == Some(i as int),
            None => keyword_step(w@, kw@, as_index(acc)) is None,
        },
{
    let k = chars_of(kw);
    match find(w, &k) {
        Some(i) => {
            match acc {
                None => Some(i),
                Some(a) => if i < a {
                    Some(i)
                } else {
                    acc
                },
            }
        },
        None => acc,
    }
}

fn find_name_before_keyword(w: &Vec<char>) -> (r: Option<String>)
    ensures
        match r {
            Some(s) => name_before_keyword(w@) == Some(s@),
            None => name_before_keyword(w@) is None,
        },
{
    let e = step_keyword(w, " c ", None);
    let e = step_keyword(w, " lbw", e);
    let e = step_keyword(w, " b ", e);
    let e = step_keyword(w, " run out", e);
    let e = step_keyword(w, " st ", e);
    let e = step_keyword(w, " hit wicket", e);
    let e = step_keyword(w, " retired", e);
    match e {
        Some(i) => {
            let head = slice_chars(w, 0, i);
            assert(head@ =~= w@.take(i as int));
            let candidate = trim(&head);
            accept_name(&candidate)
        },
        None => None,
    }
}

/// The batsman's name that a line of commentary gives, if any.
pub fn parse_batsman_from_text(text: &str) -> (r: Option<String>)
    ensures
        match r {
            Some(s) => batsman_from_text(text@) == Some(s@),
            None => batsman_from_text(text@) is None,
        },
{
    let raw = chars_of(text);
    let clean = trim(&raw);
    if clean.len() == 0 {
        return None;
    }
    match find_name_before_out(&clean) {
        Some(n) => Some(n),
        None => {
            let work = strip_out_marker(&clean);
            find_name_before_keyword(&work)
        },
    }
}

/// A name read from a line of commentary is never empty, is shorter than 40
/// bytes, and has no white space around it.
pub proof fn lemma_batsman_name_shape(text: Seq<char>)
    requires
        batsman_from_text(text) is Some,
    ensures
        fits_name(batsman_from_text(text)->0),
        trimmed(batsman_from_text(text)->0) == batsman_from_text(text)->0,
{
    let clean = trimmed(text);
    match first_index_of(clean, " to "@) {
        Some(t) => {
            let after = clean.skip(t + 4);
            let out = match first_index_of(after, ", OUT"@) {
                Some(o) => Some(o),
                None => first_index_of(after, " OUT"@),
            };
            match out {
                Some(o) => lemma_trimmed_idempotent(after.take(o)),
                None => {},
            }
        },
        None => {},
    }
    let w = after_out_marker(clean);
    match earliest_keyword(w) {
        Some(i) => lemma_trimmed_idempotent(w.take(i)),
        None => {},
    }
}

/// A line of the shape "Bowler to Batsman, OUT ..." (or "... Batsman OUT
/// ...") gives the name between " to " and the OUT marker whenever that name
/// fits, whatever dismissal keywords come before or after it.
pub proof fn lemma_to_out_line_wins(text: Seq<char>)
    requires
        name_before_out(trimmed(text)) is Some,
    ensures
        batsman_from_text(text) == name_before_out(trimmed(text)),
{
    reveal_strlit(" to ");
    lemma_index_from_occurs(trimmed(text), " to "@, 0);
}

} // verus!
