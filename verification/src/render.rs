//! Composing the display lines of a listing.
//!
//! Every entry prints as one line: its 1-based index padded to three
//! columns, a kind letter, a cyan bar proportional to its share of the
//! largest size on screen, the last path component, and its formatted
//! size.  An entry without a size prints without bar and size.

use vstd::prelude::*;
use vstd::arithmetic::mul::lemma_mul_inequality;
use vstd::arithmetic::div_mod::lemma_div_is_ordered;
use vstd::arithmetic::div_mod::lemma_div_multiples_vanish;
use vstd::string::StringExecFns;
use vstd::string::StrSliceExecFns;
use crate::entry::{Entry, EntryKind};
use crate::format::{format_size, format_size_spec, dec_str, u64_to_string};

verus! {

/// The width a full bar would have, in characters.
pub const BAR_WIDTH: u64 = 60;

/// The last component of a path: everything after the final `/`, the
/// whole path when it has none.
pub open spec fn basename_of(s: Seq<char>) -> Seq<char>
    decreases s.len(),
{
    if s.len() == 0 {
        s
    } else if s.last() == '/' {
        Seq::<char>::empty()
    } else {
        basename_of(s.drop_last()).push(s.last())
    }
}

/// The largest size any entry of the listing shows, when one does.
pub open spec fn max_size_of(s: Seq<Entry>) -> Option<nat>
    decreases s,
{
    if s.len() == 0 {
        None
    } else {
        let rest = max_size_of(s.drop_first());
        match (s[0].size, rest) {
            (Option::None, r) => r,
            (Option::Some(v), Option::None) => Some(v as nat),
            (Option::Some(v), Option::Some(m)) => if v as nat > m {
                Some(v as nat)
            } else {
                Some(m)
            },
        }
    }
}

/// The size every bar is measured against: the largest shown size, or one
/// when no entry shows a size.
pub open spec fn display_max(s: Seq<Entry>) -> nat {
    match max_size_of(s) {
        Some(m) => m,
        None => 1,
    }
}

/// A bar's length: the entry's share of the largest size, in sixtieths,
/// truncated; zero when the largest size is zero.
pub open spec fn bar_len(size: nat, m: nat) -> nat {
    if m == 0 {
        0
    } else {
        size * BAR_WIDTH as nat / m
    }
}

/// A bar of `n` equals-signs.
pub open spec fn bar_str(n: nat) -> Seq<char> {
    Seq::<char>::new(n, |i: int| '=')
}

/// An index numeral padded with spaces to at least three columns.
pub open spec fn pad3(s: Seq<char>) -> Seq<char> {
    if s.len() >= 3 {
        s
    } else if s.len() == 2 {
        s + seq![' ']
    } else {
        s + seq![' ', ' ']
    }
}

/// The kind letter: `F` for a file, `D` for a directory.
pub open spec fn kind_letter_of(k: EntryKind) -> Seq<char> {
    match k {
        EntryKind::File => seq!['F'],
        EntryKind::Directory => seq!['D'],
    }
}

/// The colour-setting prefix the terminal library writes before cyan text
/// when ANSI colours are on.
pub open spec fn cyan_on_prefix() -> Seq<char> {
    seq!['\x1b', '[', '3', '8', ';', '5', ';', '1', '4', 'm']
}

/// The colour-resetting suffix it writes after the text when colours are on.
pub open spec fn cyan_on_suffix() -> Seq<char> {
    seq!['\x1b', '[', '3', '9', 'm']
}

/// The empty colour sequence it writes in place of either when ANSI
/// colours are off (the `NO_COLOR` convention).
pub open spec fn cyan_off_marker() -> Seq<char> {
    seq!['\x1b', '[', 'm']
}

/// What `cyan` can return: the text between a colour-setting prefix and a
/// colour-resetting suffix, each of which is the empty colour sequence
/// when ANSI colours are off.  Whether colours are on is read from the
/// environment and from process-global state, and can change between the
/// two writes, so all four combinations are admitted.
pub open spec fn cyan_styled(styled: Seq<char>, text: Seq<char>) -> bool {
    ||| styled == cyan_on_prefix() + text + cyan_on_suffix()
    ||| styled == cyan_on_prefix() + text + cyan_off_marker()
    ||| styled == cyan_off_marker() + text + cyan_on_suffix()
    ||| styled == cyan_off_marker() + text + cyan_off_marker()
}

/// Relies on crossterm's `Stylize::cyan` together with `Display` for
/// `StyledContent`: it writes a foreground-colour sequence, the content
/// itself, and a colour reset.  The colour numbers are omitted when ANSI
/// colours are disabled — by the `NO_COLOR` environment variable or by
/// `Colored::set_ansi_color_disabled` — so only the shape is promised,
/// not one fixed outcome.
#[verifier::external_body]
fn cyan(s: &str) -> (r: String)
    ensures
        cyan_styled(r@, s@),
{
    crossterm::style::Stylize::cyan(s).to_string()
}

/// One display line, given the styled bar text: index, kind letter, bar,
/// base name and formatted size for an entry that shows a size; index,
/// kind letter and base name alone for one that does not (the bar
/// parameter is unused then).
pub open spec fn line_spec(idx: nat, e: Entry, m: nat, styled_bar: Seq<char>) -> Seq<char> {
    match e.size {
        Some(size) => pad3(dec_str(idx)) + seq![' '] + kind_letter_of(e.kind) + seq![' ', '[']
            + styled_bar + seq![']', ' '] + basename_of(e.path@) + seq![' ', '[']
            + format_size_spec(size) + seq![']'],
        None => pad3(dec_str(idx)) + seq![' '] + kind_letter_of(e.kind) + seq![' '] + basename_of(
            e.path@,
        ),
    }
}

/// What a rendered line holds: for an entry with a size, the line as
/// `line_spec` composes it around some admissible styling of the entry's
/// bar; for an entry without one, the bar-less line exactly.
pub open spec fn line_ok(line: Seq<char>, idx: nat, e: Entry, m: nat) -> bool {
    match e.size {
        Some(size) => exists|sb: Seq<char>|
            #[trigger] cyan_styled(sb, bar_str(bar_len(size as nat, m))) && line == line_spec(
                idx,
                e,
                m,
                sb,
            ),
        None => line == line_spec(idx, e, m, Seq::<char>::empty()),
    }
}

/// The closing line of a listing: how many entries it showed.
pub open spec fn total_line_spec(n: nat) -> Seq<char> {
    "Total entries: "@ + dec_str(n)
}

/// Finds where the base name starts: after the last `/`, every later
/// character is part of the name.
proof fn lemma_basename_subrange(s: Seq<char>, j: int)
    requires
        0 <= j <= s.len(),
        forall|k: int| j <= k < s.len() ==> s[k] != '/',
        j > 0 ==> s[j - 1] == '/',
    ensures
        basename_of(s) == s.subrange(j, s.len() as int),
    decreases s.len(),
{
    if j == s.len() {
        if s.len() == 0 {
            assert(basename_of(s) =~= s.subrange(j, s.len() as int));
        } else {
            assert(s.last() == '/');
            assert(basename_of(s) =~= s.subrange(j, s.len() as int));
        }
    } else {
        assert(s.last() != '/');
        lemma_basename_subrange(s.drop_last(), j);
        assert(basename_of(s) =~= s.subrange(j, s.len() as int));
    }
}

/// The last component of a path.
pub fn basename(path: &String) -> (r: String)
    ensures
        r@ == basename_of(path@),
{
    let n = path.as_str().unicode_len();
    let mut j: usize = n;
    while j > 0 && path.as_str().get_char(j - 1) != '/'
        invariant
            j <= n,
            n as nat == path@.len(),
            forall|k: int| j <= k < path@.len() ==> path@[k] != '/',
        decreases j,
    {
        j = j - 1;
    }
    let s = path.as_str().substring_char(j, n);
    proof {
        lemma_basename_subrange(path@, j as int);
    }
    String::from_str(s)
}

/// A bar of `n` equals-signs.
fn eq_bar(n: usize) -> (r: String)
    ensures
        r@ == bar_str(n as nat),
{
    let mut s = String::new();
    let mut i: usize = 0;
    proof {
        reveal_strlit("=");
        assert("="@ =~= seq!['=']);
        assert(s@ =~= bar_str(0));
    }
    while i < n
        invariant
            i <= n,
            s@ == bar_str(i as nat),
        decreases n - i,
    {
        s.append("=");
        proof {
            reveal_strlit("=");
            assert("="@ =~= seq!['=']);
            assert(s@ =~= bar_str((i + 1) as nat));
        }
        i = i + 1;
    }
    s
}

/// The bar's length for an entry of `size` bytes against the largest `m`.
fn bar_len_exec(size: u64, m: u64) -> (r: usize)
    requires
        size <= m,
    ensures
        r as nat == bar_len(size as nat, m as nat),
{
    if m == 0 {
        0
    } else {
        proof {
            lemma_mul_inequality(size as int, m as int, BAR_WIDTH as int);
            lemma_div_is_ordered(
                size as int * BAR_WIDTH as int,
                m as int * BAR_WIDTH as int,
                m as int,
            );
            lemma_div_multiples_vanish(BAR_WIDTH as int, m as int);
        }
        let b: u128 = (size as u128) * (BAR_WIDTH as u128) / (m as u128);
        b as usize
    }
}

/// Every shown size stays at or below the listing's largest shown size.
proof fn lemma_max_size_ge(s: Seq<Entry>, k: int)
    requires
        0 <= k < s.len(),
        s[k].size is Some,
    ensures
        max_size_of(s) is Some,
        s[k].size->0 as nat <= max_size_of(s)->0,
    decreases s,
{
    if k == 0 {
    } else {
        lemma_max_size_ge(s.drop_first(), k - 1);
        assert(s.drop_first()[k - 1] == s[k]);
    }
}

/// The largest size any entry of the listing shows, or `None`.
fn max_size_exec(entries: &Vec<Entry>) -> (r: Option<u64>)
    ensures
        ({
            let m = max_size_of(entries@);
            match r {
                Some(v) => m is Some && m->0 == v as nat,
                None => m is None,
            }
        }),
{
    let ghost s = entries@;
    let mut r: Option<u64> = None;
    let mut i: usize = entries.len();
    while i > 0
        invariant
            i <= entries.len(),
            entries@ == s,
            (match r {
                Some(v) => max_size_of(s.subrange(i as int, s.len() as int)) is Some
                    && max_size_of(s.subrange(i as int, s.len() as int))->0 == v as nat,
                None => max_size_of(s.subrange(i as int, s.len() as int)) is None,
            }),
        decreases i,
    {
        i = i - 1;
        let ghost sub = s.subrange(i as int, s.len() as int);
        proof {
            assert(sub[0] == s[i as int]);
            assert(sub.drop_first() =~= s.subrange(i + 1, s.len() as int));
        }
        match entries[i].size {
            Some(v) => {
                r = match r {
                    Some(m) => if v > m {
                        Some(v)
                    } else {
                        Some(m)
                    },
                    None => Some(v),
                };
            },
            None => {},
        }
    }
    proof {
        assert(s.subrange(0, s.len() as int) =~= s);
    }
    r
}

/// Composes the display line of one entry.
fn entry_line(idx: u64, e: &Entry, m: u64) -> (r: String)
    requires
        e.size is Some ==> e.size->0 <= m,
    ensures
        line_ok(r@, idx as nat, *e, m as nat),
{
    let mut line = u64_to_string(idx);
    let len = line.as_str().unicode_len();
    proof {
        reveal_strlit(" ");
        reveal_strlit("  ");
        reveal_strlit(" [");
        reveal_strlit("] ");
        reveal_strlit("]");
        reveal_strlit("F");
        reveal_strlit("D");
        assert(" "@ =~= seq![' ']);
        assert("  "@ =~= seq![' ', ' ']);
        assert(" ["@ =~= seq![' ', '[']);
        assert("] "@ =~= seq![']', ' ']);
        assert("]"@ =~= seq![']']);
        assert("F"@ =~= seq!['F']);
        assert("D"@ =~= seq!['D']);
    }
    if len == 1 {
        line.append("  ");
    } else if len == 2 {
        line.append(" ");
    }
    proof {
        assert(line@ =~= pad3(dec_str(idx as nat)));
    }
    line.append(" ");
    match e.kind {
        EntryKind::File => line.append("F"),
        EntryKind::Directory => line.append("D"),
    }
    let name = basename(&e.path);
    match e.size {
        Some(size) => {
            line.append(" [");
            let bar = eq_bar(bar_len_exec(size, m));
            let colored = cyan(bar.as_str());
            line.append(colored.as_str());
            line.append("] ");
            line.append(name.as_str());
            line.append(" [");
            let size_str = format_size(size);
            line.append(size_str.as_str());
            line.append("]");
            proof {
                assert(cyan_styled(colored@, bar_str(bar_len(size as nat, m as nat))));
                assert(line@ =~= line_spec(idx as nat, *e, m as nat, colored@));
            }
        },
        None => {
            line.append(" ");
            line.append(name.as_str());
            proof {
                assert(line@ =~= line_spec(idx as nat, *e, m as nat, Seq::<char>::empty()));
            }
        },
    }
    line
}

/// Composes the display lines of a whole listing, in order: the line of
/// entry `i` speaks of index `i + 1` and of the listing's largest size.
pub fn render_lines(entries: &Vec<Entry>) -> (r: Vec<String>)
    ensures
        r@.len() == entries@.len(),
        forall|i: int|
            0 <= i < entries@.len() ==> line_ok(
                r@[i]@,
                (i + 1) as nat,
                entries@[i],
                display_max(entries@),
            ),
{
    let m: u64 = match max_size_exec(entries) {
        Some(v) => v,
        None => 1,
    };
    let mut r: Vec<String> = Vec::new();
    let mut i: usize = 0;
    while i < entries.len()
        invariant
            i <= entries.len(),
            r@.len() == i as nat,
            m as nat == display_max(entries@),
            forall|k: int|
                0 <= k < i ==> line_ok(r@[k]@, (k + 1) as nat, entries@[k], display_max(
                    entries@,
                )),
        decreases entries.len() - i,
    {
        proof {
            if entries@[i as int].size is Some {
                lemma_max_size_ge(entries@, i as int);
            }
        }
        let line = entry_line((i as u64) + 1, &entries[i], m);
        r.push(line);
        i = i + 1;
    }
    r
}

/// The closing line of a listing.
pub fn total_line(n: usize) -> (r: String)
    ensures
        r@ == total_line_spec(n as nat),
{
    let mut s = String::from_str("Total entries: ");
    let num = u64_to_string(n as u64);
    s.append(num.as_str());
    s
}

} // verus!
