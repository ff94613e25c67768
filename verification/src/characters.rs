//! Pilot drama beats for the combat log / HUD flash, and procedural portrait
//! placeholders (tint + initials) for the battle HUD.

use vstd::prelude::*;
use vstd::string::*;
use crate::text::{
    append_decimal, ascii_upper, decimal_text, has_infix, is_white_space, is_white_space_char,
    lemma_infix_at, lemma_infix_left, lemma_infix_right, lemma_infix_self, push_char,
    to_ascii_upper,
};

verus! {

/// Kind of pilot psychology beat shown in the combat log / HUD flash.
#[derive(Debug, Clone, Copy, PartialEq, Eq, Structural)]
pub enum PilotDramaKind {
    /// Trauma spike armed a one-shot refuse.
    StressSpike,
    /// Pilot skipped the ordered action.
    Refuse,
    /// Armed refuse was consumed but the pilot obeyed.
    Steady,
    /// Sparse high-sync Angel core / pattern-sight read.
    CoreSight,
}

/// Brief HUD banner for the last pilot drama beat.
#[derive(Debug, Clone, PartialEq, Eq)]
pub struct PilotHudFlash {
    pub kind: PilotDramaKind,
    pub pilot_id: u32,
    pub pilot_name: String,
    /// Combat-log narration (tests / scrollback).
    pub line: String,
    /// One-line spoken beat shown with the portrait.
    pub dialog: String,
}

/// What the drama beats read of a pilot: who it is, which thresholds its
/// stress, sync and loyalty ratios cross, and its stress and sync as whole
/// percentages. The application reads these off the pilot's ratios.
#[derive(Debug, Clone, PartialEq, Eq)]
pub struct PilotMood {
    pub pilot_id: u32,
    pub name: String,
    /// Stress is at 75% or more.
    pub stress_critical: bool,
    /// Stress is at 80% or more.
    pub stress_breaking: bool,
    /// Sync is in the low band.
    pub sync_low: bool,
    /// Sync is in the high band.
    pub sync_high: bool,
    /// Sync is at 95% or more.
    pub sync_peak: bool,
    /// Loyalty is under 45%.
    pub loyalty_strained: bool,
    /// Loyalty is under 40%.
    pub loyalty_broken: bool,
    /// Loyalty is at 70% or more.
    pub loyalty_firm: bool,
    /// Stress, rounded to a whole percentage.
    pub stress_pct: u32,
    /// Sync, rounded to a whole percentage.
    pub sync_pct: u32,
}

/// The pilot's first-person cockpit quote for a beat of `kind`.
pub open spec fn dialog_text(kind: PilotDramaKind, m: PilotMood) -> Seq<char> {
    match kind {
        PilotDramaKind::StressSpike => if m.stress_critical {
            "The plug's screaming— make it stop!"@
        } else if m.sync_low {
            "Sync's slipping… I can feel it fray."@
        } else if m.loyalty_strained {
            "You felt that too, right? Don't lie."@
        } else {
            "It hit the field— I'm still here."@
        },
        PilotDramaKind::Refuse => if m.sync_low {
            "I can't move— the sync's gone!"@
        } else if m.stress_breaking {
            "I said I can't— don't order me!"@
        } else if m.loyalty_broken {
            "Not this. Find another pilot."@
        } else {
            "…I won't. Not yet."@
        },
        PilotDramaKind::Steady => if m.loyalty_firm || m.sync_high {
            "…I'm fine. Moving."@
        } else {
            "Okay. Okay— following."@
        },
        PilotDramaKind::CoreSight => if m.sync_peak {
            "There— the pattern. I see the core."@
        } else {
            "Something's flashing… there."@
        },
    }
}

/// The opening of every drama line: the pilot's name and quoted beat.
pub open spec fn quote_text(kind: PilotDramaKind, m: PilotMood) -> Seq<char> {
    m.name@ + ": \""@ + dialog_text(kind, m) + "\" — "@
}

/// The stress report that closes a stress-spike line.
pub open spec fn stress_tail(m: PilotMood) -> Seq<char> {
    "; stress "@ + decimal_text(m.stress_pct as int) + "% (may refuse next order)"@
}

/// What follows the quoted beat in a drama line. `mech` is the pilot's
/// unit and `detail` the trauma reason (stress spike, core sight) or the
/// order's verb (refuse, steady).
pub open spec fn beat_body(
    kind: PilotDramaKind,
    m: PilotMood,
    mech: Seq<char>,
    detail: Seq<char>,
) -> Seq<char> {
    match kind {
        PilotDramaKind::StressSpike => if m.stress_critical {
            detail + stress_tail(m)
        } else if m.sync_low {
            "sync fraying in "@ + mech + ", "@ + detail + stress_tail(m)
        } else if m.loyalty_strained {
            "snaps at Command from "@ + mech + ", "@ + detail + stress_tail(m)
        } else {
            "reels in "@ + mech + ", "@ + detail + stress_tail(m)
        },
        PilotDramaKind::Refuse => if m.sync_low {
            "sync collapse — refuses the "@ + detail + "! "@ + mech + " locks up."@
        } else if m.stress_breaking {
            "refuses the "@ + detail + "! "@ + mech + " freezes."@
        } else if m.loyalty_broken {
            "overrides Command — refuses the "@ + detail + "; "@ + mech + " locks up."@
        } else {
            "refuses the "@ + detail + "; "@ + mech + " locks up."@
        },
        PilotDramaKind::Steady => if m.loyalty_firm || m.sync_high {
            "bites down and steadies — follows the "@ + detail + "."@
        } else {
            "steadies and follows the "@ + detail + "."@
        },
        PilotDramaKind::CoreSight => "sees the pattern (sync "@ + decimal_text(m.sync_pct as int)
            + "%) — "@ + detail + "."@,
    }
}

/// The combat-log line of a drama beat: the pilot's name and quoted beat,
/// then the body.
pub open spec fn drama_text(
    kind: PilotDramaKind,
    m: PilotMood,
    mech: Seq<char>,
    detail: Seq<char>,
) -> Seq<char> {
    quote_text(kind, m) + beat_body(kind, m, mech, detail)
}

/// `p` occurs in `x + p + y`.
proof fn lemma_infix_mid(x: Seq<char>, p: Seq<char>, y: Seq<char>)
    ensures
        has_infix(x + p + y, p),
{
    lemma_infix_self(p);
    lemma_infix_left(x, p, p);
    lemma_infix_right(x + p, y, p);
}

/// The stress report warns that the pilot may refuse the next order.
proof fn lemma_stress_tail_warns(m: PilotMood)
    ensures
        has_infix(stress_tail(m), "may refuse next order"@),
{
    let tail = "% (may refuse next order)"@;
    let warn = "may refuse next order"@;
    reveal_strlit("% (may refuse next order)");
    reveal_strlit("may refuse next order");
    assert(tail.subrange(3, 24) =~= warn);
    lemma_infix_at(tail, warn, 3);
    lemma_infix_left("; stress "@ + decimal_text(m.stress_pct as int), tail, warn);
}

/// In `lead + detail`, where `lead` ends with "refuses the ", the refused
/// order reads "refuses the " and the order's verb.
proof fn lemma_refuses_detail(lead: Seq<char>, head: Seq<char>, detail: Seq<char>)
    requires
        lead == head + "refuses the "@,
    ensures
        has_infix(lead + detail, "refuses the "@ + detail),
        has_infix(lead + detail, detail),
{
    let p = "refuses the "@ + detail;
    assert(lead + detail =~= head + p);
    lemma_infix_self(p);
    lemma_infix_left(head, p, p);
    lemma_infix_self(detail);
    lemma_infix_left(lead, detail, detail);
}

/// Every drama line opens with the pilot's name and quoted beat and carries
/// its detail; a stress spike warns that the pilot may refuse the next
/// order; a refusal names the refused order and the pilot's unit; a
/// steadied pilot steadies; a core sight sees the pattern.
pub proof fn drama_line_tells_the_beat(
    kind: PilotDramaKind,
    m: PilotMood,
    mech: Seq<char>,
    detail: Seq<char>,
)
    ensures
        ({
            let line = drama_text(kind, m, mech, detail);
            &&& line.subrange(0, quote_text(kind, m).len() as int) == m.name@ + ": \""@
                + dialog_text(kind, m) + "\" — "@
            &&& has_infix(line, detail)
            &&& kind == PilotDramaKind::StressSpike ==> has_infix(line, "may refuse next order"@)
            &&& kind == PilotDramaKind::Refuse ==> has_infix(line, "refuses the "@ + detail)
                && has_infix(line, mech)
            &&& kind == PilotDramaKind::Steady ==> has_infix(line, "steadies"@)
            &&& kind == PilotDramaKind::CoreSight ==> has_infix(line, "sees the pattern"@)
        }),
{
    let q = quote_text(kind, m);
    let body = beat_body(kind, m, mech, detail);
    assert((q + body).subrange(0, q.len() as int) =~= q);
    let warn = "may refuse next order"@;
    let refuses = "refuses the "@ + detail;
    match kind {
        PilotDramaKind::StressSpike => {
            let tail = stress_tail(m);
            lemma_stress_tail_warns(m);
            if m.stress_critical {
                lemma_infix_self(detail);
                lemma_infix_right(detail, tail, detail);
                lemma_infix_left(detail, tail, warn);
            } else {
                let lead = if m.sync_low {
                    "sync fraying in "@
                } else if m.loyalty_strained {
                    "snaps at Command from "@
                } else {
                    "reels in "@
                };
                assert(body == lead + mech + ", "@ + detail + tail);
                lemma_infix_mid(lead + mech + ", "@, detail, tail);
                lemma_infix_left(lead + mech + ", "@ + detail, tail, warn);
            }
            lemma_infix_left(q, body, warn);
        },
        PilotDramaKind::Refuse => {
            reveal_strlit("refuses the ");
            let (lead, head, sep, end) = if m.sync_low {
                reveal_strlit("sync collapse — refuses the ");
                reveal_strlit("sync collapse — ");
                assert("sync collapse — refuses the "@ =~= "sync collapse — "@ + "refuses the "@);
                ("sync collapse — refuses the "@, "sync collapse — "@, "! "@, " locks up."@)
            } else if m.stress_breaking {
                assert("refuses the "@ =~= Seq::<char>::empty() + "refuses the "@);
                ("refuses the "@, Seq::<char>::empty(), "! "@, " freezes."@)
            } else if m.loyalty_broken {
                reveal_strlit("overrides Command — refuses the ");
                reveal_strlit("overrides Command — ");
                assert("overrides Command — refuses the "@ =~= "overrides Command — "@
                    + "refuses the "@);
                ("overrides Command — refuses the "@, "overrides Command — "@, "; "@, " locks up."@)
            } else {
                assert("refuses the "@ =~= Seq::<char>::empty() + "refuses the "@);
                ("refuses the "@, Seq::<char>::empty(), "; "@, " locks up."@)
            };
            assert(body == lead + detail + sep + mech + end);
            lemma_refuses_detail(lead, head, detail);
            lemma_infix_right(lead + detail, sep, refuses);
            lemma_infix_right(lead + detail + sep, mech, refuses);
            lemma_infix_right(lead + detail + sep + mech, end, refuses);
            lemma_infix_right(lead + detail, sep, detail);
            lemma_infix_right(lead + detail + sep, mech, detail);
            lemma_infix_right(lead + detail + sep + mech, end, detail);
            lemma_infix_mid(lead + detail + sep, mech, end);
            lemma_infix_left(q, body, refuses);
            lemma_infix_left(q, body, mech);
        },
        PilotDramaKind::Steady => {
            let steadies = "steadies"@;
            reveal_strlit("steadies");
            let lead = if m.loyalty_firm || m.sync_high {
                reveal_strlit("bites down and steadies — follows the ");
                assert("bites down and steadies — follows the "@.subrange(15, 23) =~= steadies);
                lemma_infix_at("bites down and steadies — follows the "@, steadies, 15);
                "bites down and steadies — follows the "@
            } else {
                reveal_strlit("steadies and follows the ");
                assert("steadies and follows the "@.subrange(0, 8) =~= steadies);
                lemma_infix_at("steadies and follows the "@, steadies, 0);
                "steadies and follows the "@
            };
            assert(body == lead + detail + "."@);
            lemma_infix_right(lead, detail, steadies);
            lemma_infix_right(lead + detail, "."@, steadies);
            lemma_infix_mid(lead, detail, "."@);
            lemma_infix_left(q, body, steadies);
        },
        PilotDramaKind::CoreSight => {
            let sees = "sees the pattern"@;
            let lead = "sees the pattern (sync "@;
            reveal_strlit("sees the pattern");
            reveal_strlit("sees the pattern (sync ");
            assert(lead.subrange(0, 16) =~= sees);
            lemma_infix_at(lead, sees, 0);
            let dec = decimal_text(m.sync_pct as int);
            assert(body == lead + dec + "%) — "@ + detail + "."@);
            lemma_infix_right(lead, dec, sees);
            lemma_infix_right(lead + dec, "%) — "@, sees);
            lemma_infix_right(lead + dec + "%) — "@, detail, sees);
            lemma_infix_right(lead + dec + "%) — "@ + detail, "."@, sees);
            lemma_infix_mid(lead + dec + "%) — "@, detail, "."@);
            lemma_infix_left(q, body, sees);
        },
    }
    lemma_infix_left(q, body, detail);
}

/// Every stress-spike line, in every mood, closes by reporting the pilot's
/// own stress percentage and warning that the next order may be refused.
pub proof fn stress_line_reports_own_stress(m: PilotMood, mech: Seq<char>, detail: Seq<char>)
    ensures
        ({
            let line = drama_text(PilotDramaKind::StressSpike, m, mech, detail);
            let tail = "; stress "@ + decimal_text(m.stress_pct as int)
                + "% (may refuse next order)"@;
            &&& line.len() >= tail.len()
            &&& line.subrange(line.len() - tail.len(), line.len() as int) == tail
        }),
{
    let q = quote_text(PilotDramaKind::StressSpike, m);
    let tail = "; stress "@ + decimal_text(m.stress_pct as int) + "% (may refuse next order)"@;
    let head = if m.stress_critical {
        detail
    } else if m.sync_low {
        "sync fraying in "@ + mech + ", "@ + detail
    } else if m.loyalty_strained {
        "snaps at Command from "@ + mech + ", "@ + detail
    } else {
        "reels in "@ + mech + ", "@ + detail
    };
    let line = drama_text(PilotDramaKind::StressSpike, m, mech, detail);
    assert(beat_body(PilotDramaKind::StressSpike, m, mech, detail) == head + tail);
    assert(line == (q + head) + tail);
    assert(line.subrange(line.len() - tail.len(), line.len() as int) =~= tail);
}

/// `f` is the banner of a `kind` beat about the pilot `m` with log line `line`.
pub open spec fn shows_beat(
    f: PilotHudFlash,
    kind: PilotDramaKind,
    m: PilotMood,
    line: Seq<char>,
) -> bool {
    &&& f.kind == kind
    &&& f.pilot_id == m.pilot_id
    &&& f.pilot_name@ == m.name@
    &&& f.line@ == line
    &&& f.dialog@ == dialog_text(kind, m)
}

/// The compact HUD caption of each drama kind.
pub open spec fn caption_text(kind: PilotDramaKind) -> Seq<char> {
    match kind {
        PilotDramaKind::StressSpike => "⚠ PILOT STRESS SPIKE"@,
        PilotDramaKind::Refuse => "⛔ ORDER REFUSED"@,
        PilotDramaKind::Steady => "✓ PILOT STEADIED"@,
        PilotDramaKind::CoreSight => "✦ PATTERN SIGHT"@,
    }
}

impl PilotHudFlash {
    /// A banner for `kind` about `pilot`, with its log line and the pilot's
    /// spoken beat (`dialog_beat`).
    pub fn new(kind: PilotDramaKind, pilot: &PilotMood, line: String) -> (r: PilotHudFlash)
        ensures
            shows_beat(r, kind, *pilot, line@),
            r.line == line,
    {
        PilotHudFlash {
            kind,
            pilot_id: pilot.pilot_id,
            pilot_name: pilot.name.clone(),
            line,
            dialog: dialog_beat(kind, pilot),
        }
    }

    /// Compact caption for the HUD strip.
    pub fn caption(&self) -> (r: &'static str)
        ensures
            r@ == caption_text(self.kind),
    {
        match self.kind {
            PilotDramaKind::StressSpike => "⚠ PILOT STRESS SPIKE",
            PilotDramaKind::Refuse => "⛔ ORDER REFUSED",
            PilotDramaKind::Steady => "✓ PILOT STEADIED",
            PilotDramaKind::CoreSight => "✦ PATTERN SIGHT",
        }
    }
}

/// Short first-person cockpit line for the drama flash (not a full dialog system).
pub fn dialog_beat(kind: PilotDramaKind, pilot: &PilotMood) -> (r: String)
    ensures
        r@ == dialog_text(kind, *pilot),
{
    let text: &str = match kind {
        PilotDramaKind::StressSpike => if pilot.stress_critical {
            "The plug's screaming— make it stop!"
        } else if pilot.sync_low {
            "Sync's slipping… I can feel it fray."
        } else if pilot.loyalty_strained {
            "You felt that too, right? Don't lie."
        } else {
            "It hit the field— I'm still here."
        },
        PilotDramaKind::Refuse => if pilot.sync_low {
            "I can't move— the sync's gone!"
        } else if pilot.stress_breaking {
            "I said I can't— don't order me!"
        } else if pilot.loyalty_broken {
            "Not this. Find another pilot."
        } else {
            "…I won't. Not yet."
        },
        PilotDramaKind::Steady => if pilot.loyalty_firm || pilot.sync_high {
            "…I'm fine. Moving."
        } else {
            "Okay. Okay— following."
        },
        PilotDramaKind::CoreSight => if pilot.sync_peak {
            "There— the pattern. I see the core."
        } else {
            "Something's flashing… there."
        },
    };
    String::from_str(text)
}

/// The pilot's name and quoted beat, opening a drama line.
fn quote_line(kind: PilotDramaKind, pilot: &PilotMood) -> (r: String)
    ensures
        r@ == quote_text(kind, *pilot),
{
    let mut r = pilot.name.clone();
    r.append(": \"");
    let beat = dialog_beat(kind, pilot);
    r.append(beat.as_str());
    r.append("\" — ");
    r
}

/// Appends the stress report that closes a stress-spike line.
fn append_stress_tail(s: &mut String, pilot: &PilotMood)
    ensures
        final(s)@ == old(s)@ + stress_tail(*pilot),
{
    s.append("; stress ");
    append_decimal(s, pilot.stress_pct as i64);
    s.append("% (may refuse next order)");
    assert(final(s)@ =~= old(s)@ + stress_tail(*pilot));
}

/// Short Eva-flavored combat-log line. `detail` is the trauma reason or order verb.
pub fn drama_line(kind: PilotDramaKind, pilot: &PilotMood, mech: &str, detail: &str) -> (r: String)
    ensures
        r@ == drama_text(kind, *pilot, mech@, detail@),
{
    let mut r = quote_line(kind, pilot);
    match kind {
        PilotDramaKind::StressSpike => {
            if pilot.stress_critical {
                r.append(detail);
            } else {
                if pilot.sync_low {
                    r.append("sync fraying in ");
                } else if pilot.loyalty_strained {
                    r.append("snaps at Command from ");
                } else {
                    r.append("reels in ");
                }
                r.append(mech);
                r.append(", ");
                r.append(detail);
            }
            append_stress_tail(&mut r, pilot);
        },
        PilotDramaKind::Refuse => {
            if pilot.sync_low {
                r.append("sync collapse — refuses the ");
                r.append(detail);
                r.append("! ");
                r.append(mech);
                r.append(" locks up.");
            } else if pilot.stress_breaking {
                r.append("refuses the ");
                r.append(detail);
                r.append("! ");
                r.append(mech);
                r.append(" freezes.");
            } else {
                if pilot.loyalty_broken {
                    r.append("overrides Command — refuses the ");
                } else {
                    r.append("refuses the ");
                }
                r.append(detail);
                r.append("; ");
                r.append(mech);
                r.append(" locks up.");
            }
        },
        PilotDramaKind::Steady => {
            if pilot.loyalty_firm || pilot.sync_high {
                r.append("bites down and steadies — follows the ");
            } else {
                r.append("steadies and follows the ");
            }
            r.append(detail);
            r.append(".");
        },
        PilotDramaKind::CoreSight => {
            r.append("sees the pattern (sync ");
            append_decimal(&mut r, pilot.sync_pct as i64);
            r.append("%) — ");
            r.append(detail);
            r.append(".");
        },
    }
    assert(r@ =~= drama_text(kind, *pilot, mech@, detail@));
    r
}

/// Portrait tint for a pilot id: one of six colours, chosen by `id % 6`.
pub open spec fn portrait_tint(pilot_id: u32) -> Seq<u8> {
    let k = pilot_id % 6;
    if k == 0 {
        seq![72u8, 168u8, 210u8]
    } else if k == 1 {
        seq![210u8, 110u8, 170u8]
    } else if k == 2 {
        seq![120u8, 190u8, 110u8]
    } else if k == 3 {
        seq![220u8, 170u8, 70u8]
    } else if k == 4 {
        seq![150u8, 130u8, 220u8]
    } else {
        seq![200u8, 120u8, 90u8]
    }
}

/// Procedural portrait tint from pilot id (no art packs).
pub fn portrait_rgb(pilot_id: u32) -> (r: [u8; 3])
    ensures
        r@ == portrait_tint(pilot_id),
{
    let r = match pilot_id % 6 {
        0 => [72u8, 168u8, 210u8],
        1 => [210u8, 110u8, 170u8],
        2 => [120u8, 190u8, 110u8],
        3 => [220u8, 170u8, 70u8],
        4 => [150u8, 130u8, 220u8],
        _ => [200u8, 120u8, 90u8],
    };
    assert(r@ =~= portrait_tint(pilot_id));
    r
}

/// Two different pilot ids that differ modulo six get different tints; in
/// particular the first two pilots (0 and 1) never share a colour.
pub proof fn portrait_tints_differ(a: u32, b: u32)
    requires
        a % 6 != b % 6,
    ensures
        portrait_tint(a) != portrait_tint(b),
{
    let ta = portrait_tint(a);
    let tb = portrait_tint(b);
    assert(ta[0] != tb[0] || ta[1] != tb[1] || ta[2] != tb[2]);
}

/// First index at or after `i` that is not white space (or the length).
pub open spec fn skip_space(s: Seq<char>, i: int) -> int
    decreases s.len() - i,
{
    if i < 0 || i >= s.len() {
        s.len() as int
    } else if is_white_space(s[i]) {
        skip_space(s, i + 1)
    } else {
        i
    }
}

/// First index at or after `i` that is white space (or the length).
pub open spec fn skip_word(s: Seq<char>, i: int) -> int
    decreases s.len() - i,
{
    if i < 0 || i >= s.len() {
        s.len() as int
    } else if !is_white_space(s[i]) {
        skip_word(s, i + 1)
    } else {
        i
    }
}

/// Initials of a name: the upper-cased first letters of its first two
/// whitespace-separated words, one letter for a single word, `?` for none.
pub open spec fn initials_text(s: Seq<char>) -> Seq<char> {
    let a = skip_space(s, 0);
    let b = skip_space(s, skip_word(s, a));
    if a < s.len() && b < s.len() {
        seq![ascii_upper(s[a]), ascii_upper(s[b])]
    } else if a < s.len() {
        seq![ascii_upper(s[a])]
    } else {
        seq!['?']
    }
}

/// `s` is all white space.
pub open spec fn all_white(s: Seq<char>) -> bool {
    forall|k: int| 0 <= k < s.len() ==> is_white_space(#[trigger] s[k])
}

/// `w` is a word: non-empty, without white space.
pub open spec fn is_word(w: Seq<char>) -> bool {
    w.len() > 0 && forall|k: int| 0 <= k < w.len() ==> !is_white_space(#[trigger] w[k])
}

proof fn lemma_skip_space_run(s: Seq<char>, i: int, j: int)
    requires
        0 <= i <= j <= s.len(),
        forall|k: int| i <= k < j ==> is_white_space(#[trigger] s[k]),
    ensures
        skip_space(s, i) == skip_space(s, j),
    decreases j - i,
{
    if i < j {
        lemma_skip_space_run(s, i + 1, j);
    }
}

proof fn lemma_skip_word_run(s: Seq<char>, i: int, j: int)
    requires
        0 <= i <= j <= s.len(),
        forall|k: int| i <= k < j ==> !is_white_space(#[trigger] s[k]),
    ensures
        skip_word(s, i) == skip_word(s, j),
    decreases j - i,
{
    if i < j {
        lemma_skip_word_run(s, i + 1, j);
    }
}

/// The initials of a name are the upper-cased first letters of its first
/// two words: for a name of (possibly empty) leading white space `pre`, a
/// word `w1`, white space `sep`, a word `w2` and anything after, they are
/// `w1[0]` and `w2[0]`; a single word followed only by (possibly no) white
/// space gives its first letter; a blank name gives `?`.
pub proof fn initials_are_first_letters_of_words(
    pre: Seq<char>,
    w1: Seq<char>,
    sep: Seq<char>,
    w2: Seq<char>,
    rest: Seq<char>,
)
    requires
        all_white(pre),
        is_word(w1),
        all_white(sep),
        sep.len() > 0,
        is_word(w2),
    ensures
        initials_text(pre + w1 + sep + w2 + rest) == seq![ascii_upper(w1[0]), ascii_upper(w2[0])],
        all_white(rest) ==> initials_text(pre + w1 + rest) == seq![ascii_upper(w1[0])],
        initials_text(pre) == seq!['?'],
{
    let a = pre.len() as int;
    let e = a + w1.len();
    // Two words.
    let s = pre + w1 + sep + w2 + rest;
    let b = e + sep.len();
    assert forall|k: int| 0 <= k < a implies is_white_space(#[trigger] s[k]) by {
        assert(s[k] == pre[k]);
    }
    lemma_skip_space_run(s, 0, a);
    assert(s[a] == w1[0]);
    assert forall|k: int| a <= k < e implies !is_white_space(#[trigger] s[k]) by {
        assert(s[k] == w1[k - a]);
    }
    lemma_skip_word_run(s, a, e);
    assert(s[e] == sep[0]);
    assert forall|k: int| e <= k < b implies is_white_space(#[trigger] s[k]) by {
        assert(s[k] == sep[k - e]);
    }
    lemma_skip_space_run(s, e, b);
    assert(s[b] == w2[0]);
    assert(initials_text(s) =~= seq![ascii_upper(w1[0]), ascii_upper(w2[0])]);
    // One word.
    let t = pre + w1 + rest;
    if all_white(rest) {
        assert forall|k: int| 0 <= k < a implies is_white_space(#[trigger] t[k]) by {
            assert(t[k] == pre[k]);
        }
        lemma_skip_space_run(t, 0, a);
        assert(t[a] == w1[0]);
        assert forall|k: int| a <= k < e implies !is_white_space(#[trigger] t[k]) by {
            assert(t[k] == w1[k - a]);
        }
        lemma_skip_word_run(t, a, e);
        assert forall|k: int| e <= k < t.len() implies is_white_space(#[trigger] t[k]) by {
            assert(t[k] == rest[k - e]);
        }
        lemma_skip_space_run(t, e, t.len() as int);
        assert(initials_text(t) =~= seq![ascii_upper(w1[0])]);
    }
    // Blank.
    lemma_skip_space_run(pre, 0, pre.len() as int);
}

proof fn lemma_skip_space_bounds(s: Seq<char>, i: int)
    requires
        0 <= i <= s.len(),
    ensures
        i <= skip_space(s, i) <= s.len(),
        skip_space(s, i) < s.len() ==> !is_white_space(s[skip_space(s, i)]),
    decreases s.len() - i,
{
    if i < s.len() && is_white_space(s[i]) {
        lemma_skip_space_bounds(s, i + 1);
    }
}

proof fn lemma_skip_word_bounds(s: Seq<char>, i: int)
    requires
        0 <= i <= s.len(),
    ensures
        i <= skip_word(s, i) <= s.len(),
    decreases s.len() - i,
{
    if i < s.len() && !is_white_space(s[i]) {
        lemma_skip_word_bounds(s, i + 1);
    }
}

fn skip_space_exec(name: &str, len: usize, start: usize) -> (r: usize)
    requires
        len == name@.len(),
        start <= len,
    ensures
        r == skip_space(name@, start as int),
{
    let mut i = start;
    while i < len
        invariant
            start <= i <= len,
            len == name@.len(),
            skip_space(name@, i as int) == skip_space(name@, start as int),
        decreases len - i,
    {
        if !is_white_space_char(name.get_char(i)) {
            return i;
        }
        i = i + 1;
    }
    i
}

fn skip_word_exec(name: &str, len: usize, start: usize) -> (r: usize)
    requires
        len == name@.len(),
        start <= len,
    ensures
        r == skip_word(name@, start as int),
{
    let mut i = start;
    while i < len
        invariant
            start <= i <= len,
            len == name@.len(),
            skip_word(name@, i as int) == skip_word(name@, start as int),
        decreases len - i,
    {
        if is_white_space_char(name.get_char(i)) {
            return i;
        }
        i = i + 1;
    }
    i
}

/// One or two initials for the silhouette plaque.
pub fn portrait_initials(name: &str) -> (r: String)
    ensures
        r@ == initials_text(name@),
{
    let len = name.unicode_len();
    let a = skip_space_exec(name, len, 0);
    proof {
        lemma_skip_space_bounds(name@, 0);
    }
    let w = skip_word_exec(name, len, a);
    proof {
        lemma_skip_word_bounds(name@, a as int);
    }
    let b = skip_space_exec(name, len, w);
    let mut r = String::new();
    if a < len {
        push_char(&mut r, to_ascii_upper(name.get_char(a)));
        if b < len {
            push_char(&mut r, to_ascii_upper(name.get_char(b)));
        }
    } else {
        push_char(&mut r, '?');
    }
    proof {
        lemma_skip_space_bounds(name@, w as int);
        assert(r@ =~= initials_text(name@));
    }
    r
}

} // verus!
