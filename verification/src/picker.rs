//! The profile picker: one card per profile (Kids first, then Agent, then
//! Admin), the picker screen, and the choice a typed answer makes. Printing
//! the screen and reading the answer is the caller's part.

use vstd::prelude::*;
use crate::config::OmniShellConfig;
use crate::picture::mode_emoji;
use crate::profile::{Mode, Profile};
use crate::text::{lowercase_of, nat_digits, push_char, str_eq, to_lowercase, trim, trim_str, u64_to_string};

verus! {

broadcast use vstd::string::group_string_axioms;

/// A profile card.
#[derive(Debug, Clone)]
pub struct ProfileCard {
    /// Profile name.
    pub name: String,
    /// Display emoji.
    pub emoji: String,
    /// One-line description.
    pub description: String,
    /// The mode.
    pub mode: Mode,
}

/// The value of a card.
pub struct CardView {
    pub name: Seq<char>,
    pub emoji: Seq<char>,
    pub description: Seq<char>,
    pub mode: Mode,
}

/// The value of a card.
pub open spec fn card_view(c: ProfileCard) -> CardView {
    CardView { name: c.name@, emoji: c.emoji@, description: c.description@, mode: c.mode }
}

/// The values of a sequence of cards.
pub open spec fn card_views(s: Seq<ProfileCard>) -> Seq<CardView> {
    s.map_values(|c: ProfileCard| card_view(c))
}

/// The description of a profile's card.
pub open spec fn card_description(p: Profile) -> Seq<char> {
    match p.mode {
        Mode::Kids => "Kids Mode — Learn terminal!"@ + match p.age {
            Some(a) => " (Age "@ + nat_digits(a as nat) + ")"@,
            None => Seq::empty(),
        },
        Mode::Agent => "Agent Mode — AI coding assistant"@,
        Mode::Admin => "Admin Mode — Full access"@,
    }
}

/// The card of a named profile.
pub open spec fn card_of(e: (Seq<char>, Profile)) -> CardView {
    CardView { name: e.0, emoji: mode_emoji(e.1.mode), description: card_description(e.1), mode: e.1.mode }
}

/// The cards of the profiles, each mode's cards in profile order, Kids first,
/// then Agent, then Admin.
pub open spec fn cards_spec(es: Seq<(Seq<char>, Profile)>) -> Seq<CardView> {
    let all = es.map_values(|e: (Seq<char>, Profile)| card_of(e));
    all.filter(|c: CardView| c.mode == Mode::Kids)
        + all.filter(|c: CardView| c.mode == Mode::Agent)
        + all.filter(|c: CardView| c.mode == Mode::Admin)
}

fn make_card(name: &String, profile: &Profile) -> (r: ProfileCard)
    ensures
        card_view(r) == card_of((name@, *profile)),
{
    let (emoji, description) = match profile.mode {
        Mode::Kids => {
            let mut d = String::from_str("Kids Mode — Learn terminal!");
            match profile.age {
                Some(a) => {
                    d.append(" (Age ");
                    d.append(u64_to_string(a as u64).as_str());
                    d.append(")");
                    assert(d@ =~= "Kids Mode — Learn terminal!"@ + (" (Age "@ + nat_digits(a as nat) + ")"@));
                },
                None => {
                    assert(d@ =~= "Kids Mode — Learn terminal!"@ + Seq::<char>::empty());
                },
            }
            (String::from_str("🧒"), d)
        },
        Mode::Agent => (String::from_str("🤖"), String::from_str("Agent Mode — AI coding assistant")),
        Mode::Admin => (String::from_str("⚡"), String::from_str("Admin Mode — Full access")),
    };
    ProfileCard { name: name.clone(), emoji, description, mode: profile.mode }
}

/// Generates the profile cards of a configuration.
pub fn generate_cards(config: &OmniShellConfig) -> (r: Vec<ProfileCard>)
    ensures
        card_views(r@) == cards_spec(config.profile@),
{
    let entries = config.profile.entries();
    let ghost es = config.profile@;
    let ghost all = es.map_values(|e: (Seq<char>, Profile)| card_of(e));
    let mut r: Vec<ProfileCard> = Vec::new();
    let ghost mut done: Seq<CardView> = Seq::empty();
    let modes: [Mode; 3] = [Mode::Kids, Mode::Agent, Mode::Admin];
    let mut m: usize = 0;
    while m < 3
        invariant
            m <= 3,
            modes@ == seq![Mode::Kids, Mode::Agent, Mode::Admin],
            entries@.map_values(|e: (String, Profile)| (e.0@, e.1)) == es,
            all == es.map_values(|e: (Seq<char>, Profile)| card_of(e)),
            card_views(r@) == if m == 0 {
                Seq::empty()
            } else if m == 1 {
                all.filter(|c: CardView| c.mode == Mode::Kids)
            } else if m == 2 {
                all.filter(|c: CardView| c.mode == Mode::Kids) + all.filter(|c: CardView| c.mode == Mode::Agent)
            } else {
                cards_spec(es)
            },
        decreases 3 - m,
    {
        let mode = modes[m];
        let ghost keep = |c: CardView| c.mode == mode;
        let ghost start = card_views(r@);
        let mut i: usize = 0;
        while i < entries.len()
            invariant
                i <= entries.len(),
                entries@.map_values(|e: (String, Profile)| (e.0@, e.1)) == es,
                all == es.map_values(|e: (Seq<char>, Profile)| card_of(e)),
                keep == (|c: CardView| c.mode == mode),
                card_views(r@) == start + all.take(i as int).filter(keep),
            decreases entries.len() - i,
        {
            let ghost before = card_views(r@);
            proof {
                assert(es[i as int] == (entries@[i as int].0@, entries@[i as int].1));
                assert(all.take(i + 1) =~= all.take(i as int).push(all[i as int]));
                reveal(Seq::filter);
                assert(all.take(i as int).push(all[i as int]).drop_last() =~= all.take(i as int));
            }
            if entries[i].1.mode == mode {
                let card = make_card(&entries[i].0, &entries[i].1);
                r.push(card);
                proof {
                    assert(card_views(r@) =~= before.push(all[i as int]));
                }
            }
            i += 1;
        }
        proof {
            assert(all.take(entries.len() as int) =~= all);
        }
        m += 1;
    }
    r
}

/// The picker screen's first lines.
pub open spec fn picker_header() -> Seq<char> {
    "\n"@ + "╔══════════════════════════════════════╗\n"@ + "║       🐚 Welcome to OmniShell!       ║\n"@
        + "║     Choose your profile to start      ║\n"@ + "╠══════════════════════════════════════╣\n"@
}

/// The picker screen's last lines.
pub open spec fn picker_footer() -> Seq<char> {
    "╚══════════════════════════════════════╝\n"@ + "\nPress 1-9 to select: "@
}

/// The line of the card numbered `num`.
pub open spec fn card_line(num: nat, c: CardView) -> Seq<char> {
    "║  "@ + nat_digits(num) + " "@ + c.emoji + " │ "@ + c.name + "  "@ + c.description + "\n"@
}

/// The lines of the cards, numbered from 1.
pub open spec fn card_lines(cards: Seq<CardView>) -> Seq<char>
    decreases cards.len(),
{
    if cards.len() == 0 {
        Seq::empty()
    } else {
        card_lines(cards.drop_last()) + card_line(cards.len(), cards.last())
    }
}

/// Renders the picker screen.
pub fn render_picker(cards: &[ProfileCard]) -> (r: String)
    ensures
        r@ == picker_header() + card_lines(card_views(cards@)) + picker_footer(),
{
    let mut out = String::new();
    out.append("\n");
    out.append("╔══════════════════════════════════════╗\n");
    out.append("║       🐚 Welcome to OmniShell!       ║\n");
    out.append("║     Choose your profile to start      ║\n");
    out.append("╠══════════════════════════════════════╣\n");
    let ghost head = out@;
    assert(head =~= picker_header());
    let mut i: usize = 0;
    while i < cards.len()
        invariant
            i <= cards.len(),
            head == picker_header(),
            out@ == head + card_lines(card_views(cards@).take(i as int)),
        decreases cards.len() - i,
    {
        let card = &cards[i];
        let ghost before = out@;
        out.append("║  ");
        out.append(u64_to_string((i + 1) as u64).as_str());
        out.append(" ");
        out.append(card.emoji.as_str());
        out.append(" │ ");
        out.append(card.name.as_str());
        out.append("  ");
        out.append(card.description.as_str());
        out.append("\n");
        proof {
            let cv = card_views(cards@);
            assert(cv.take(i + 1).drop_last() =~= cv.take(i as int));
            assert(cv.take(i + 1).last() == card_view(*card));
            assert(out@ =~= before + card_line((i + 1) as nat, card_view(*card)));
        }
        i += 1;
    }
    proof {
        assert(card_views(cards@).take(cards.len() as int) =~= card_views(cards@));
    }
    out.append("╚══════════════════════════════════════╝\n");
    out.append("\nPress 1-9 to select: ");
    out
}

/// Whether a character is an ASCII digit.
pub open spec fn is_digit(c: char) -> bool {
    '0' <= c && c <= '9'
}

/// The value of a string of decimal digits.
pub open spec fn digits_value(d: Seq<char>) -> nat
    decreases d.len(),
{
    if d.len() == 0 {
        0
    } else {
        digits_value(d.drop_last()) * 10 + ((d.last() as nat) - ('0' as nat)) as nat
    }
}

/// The digits of an unsigned number: without a leading `+`.
pub open spec fn sign_stripped(s: Seq<char>) -> Seq<char> {
    if s.len() > 0 && s[0] == '+' { s.drop_first() } else { s }
}

/// Whether every character is a decimal digit.
pub open spec fn all_digits(d: Seq<char>) -> bool {
    forall|k: int| 0 <= k < d.len() ==> is_digit(#[trigger] d[k])
}

/// What `usize::from_str` accepts: an optional `+`, then one or more decimal
/// digits whose value fits in `usize`.
pub open spec fn parse_usize_spec(s: Seq<char>) -> Option<nat> {
    let d = sign_stripped(s);
    if d.len() == 0 || !all_digits(d) {
        None
    } else if digits_value(d) > usize::MAX {
        None
    } else {
        Some(digits_value(d))
    }
}

proof fn lemma_digits_prefix(d: Seq<char>, i: int)
    requires
        0 <= i <= d.len(),
        forall|k: int| 0 <= k < d.len() ==> is_digit(#[trigger] d[k]),
    ensures
        digits_value(d.take(i)) <= digits_value(d),
    decreases d.len(),
{
    if i < d.len() {
        let p = d.drop_last();
        assert(p.take(i) =~= d.take(i));
        lemma_digits_prefix(p, i);
    } else {
        assert(d.take(i) =~= d);
    }
}

/// Parses a decimal `usize` as `str::parse` does.
pub fn parse_usize(s: &str) -> (r: Option<usize>)
    ensures
        match r {
            Some(n) => parse_usize_spec(s@) == Some(n as nat),
            None => parse_usize_spec(s@) is None,
        },
{
    let n = s.unicode_len();
    let start: usize = if n > 0 && s.get_char(0) == '+' { 1 } else { 0 };
    let ghost d = sign_stripped(s@);
    assert(d =~= s@.skip(start as int));
    if start == n {
        return None;
    }
    let mut i: usize = start;
    let mut acc: usize = 0;
    let mut overflow = false;
    while i < n
        invariant
            start <= i <= n,
            n == s@.len(),
            d == s@.skip(start as int),
            d == sign_stripped(s@),
            forall|k: int| 0 <= k < i - start ==> is_digit(#[trigger] d[k]),
            !overflow ==> acc == digits_value(d.take(i - start)),
            overflow ==> digits_value(d.take(i - start)) > usize::MAX,
        decreases n - i,
    {
        let c = s.get_char(i);
        if !('0' <= c && c <= '9') {
            assert(!is_digit(d[i - start]));
            assert(!all_digits(d));
            return None;
        }
        let dv = (c as u32 - '0' as u32) as usize;
        proof {
            assert(d.take(i - start + 1).drop_last() =~= d.take(i - start));
            assert(d.take(i - start + 1).last() == c);
        }
        if !overflow {
            if acc > (usize::MAX - dv) / 10 {
                overflow = true;
                assert(digits_value(d.take(i - start + 1)) > usize::MAX) by (nonlinear_arith)
                    requires
                        digits_value(d.take(i - start + 1)) == acc * 10 + dv,
                        acc > (usize::MAX - dv) / 10,
                        dv <= 9,
                ;
            } else {
                assert(acc * 10 + dv <= usize::MAX) by (nonlinear_arith)
                    requires
                        acc <= (usize::MAX - dv) / 10,
                        dv <= 9,
                ;
                acc = acc * 10 + dv;
            }
        } else {
            assert(digits_value(d.take(i - start + 1)) >= digits_value(d.take(i - start)));
        }
        i += 1;
    }
    assert(d.take(n - start) =~= d);
    if overflow {
        None
    } else {
        Some(acc)
    }
}

/// The name of the first card whose lower-cased name equals `lower`.
pub open spec fn first_named(cards: Seq<CardView>, lower: Seq<char>, i: int) -> Option<Seq<char>>
    decreases cards.len() - i,
{
    if i < 0 || i >= cards.len() {
        None
    } else if lowercase_of(cards[i].name) == lower {
        Some(cards[i].name)
    } else {
        first_named(cards, lower, i + 1)
    }
}

/// The profile an answer picks: none without cards; the only card when there
/// is one; else the card with the typed number (from 1), else the card whose
/// name matches ignoring case, else the first card.
pub open spec fn choice(cards: Seq<CardView>, input: Seq<char>) -> Option<Seq<char>> {
    if cards.len() == 0 {
        None
    } else if cards.len() == 1 {
        Some(cards[0].name)
    } else {
        let t = trim(input);
        match parse_usize_spec(t) {
            Some(n) if 1 <= n <= cards.len() => Some(cards[n - 1].name),
            _ => match first_named(cards, lowercase_of(t), 0) {
                Some(name) => Some(name),
                None => Some(cards[0].name),
            },
        }
    }
}

/// The profile an answer typed at the picker picks.
pub fn choose_profile(cards: &Vec<ProfileCard>, input: &str) -> (r: Option<String>)
    ensures
        match r {
            Some(s) => choice(card_views(cards@), input@) == Some(s@),
            None => choice(card_views(cards@), input@) is None,
        },
{
    let ghost cv = card_views(cards@);
    if cards.len() == 0 {
        return None;
    }
    if cards.len() == 1 {
        return Some(cards[0].name.clone());
    }
    let trimmed = trim_str(input);
    match parse_usize(trimmed.as_str()) {
        Some(num) => {
            if num >= 1 && num <= cards.len() {
                return Some(cards[num - 1].name.clone());
            }
        },
        None => {},
    }
    let wanted = to_lowercase(trimmed.as_str());
    let mut i: usize = cards.len();
    let mut found: Option<usize> = None;
    while i > 0
        invariant
            i <= cards.len(),
            cv == card_views(cards@),
            wanted@ == lowercase_of(trim(input@)),
            match found {
                Some(j) => j < cards.len() && first_named(cv, wanted@, i as int) == Some(cards@[j as int].name@),
                None => first_named(cv, wanted@, i as int) is None,
            },
        decreases i,
    {
        i -= 1;
        let lower = to_lowercase(cards[i].name.as_str());
        if str_eq(lower.as_str(), wanted.as_str()) {
            found = Some(i);
        }
    }
    match found {
        Some(j) => Some(cards[j].name.clone()),
        None => Some(cards[0].name.clone()),
    }
}

} // verus!
