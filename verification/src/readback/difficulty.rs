use crate::beatmap::{SectionView, section_at};
use crate::error::ErrorView;
use crate::keyed::{KeyedSection, scan_pairs};
use crate::model::{DifficultySection, DifficultySectionView};
use crate::number::is_decimal_text;
use crate::readback::joining::lacks;
use crate::readback::keys::{
    block_at, header, is_key, is_line, lemma_block_line, lemma_decimal_is_value,
    lemma_entry_is_line, lemma_header_reads_back, lemma_key_matches_itself, lemma_keys_differ,
    lemma_plain_is_value, lemma_scan_step, lemma_scan_stop, pairs_stop_at,
};
use crate::readback::lines::{are_lines, lemma_unblank_all, unblank};
use crate::readback::records::{is_value, lemma_decimal_reads_back};
use crate::sections::default_difficulty;
use crate::serialize::difficulty_lines;
use vstd::prelude::*;

verus! {

impl DifficultySectionView {
    /// Whether the section is read back once it is written: its real numbers are
    /// written as such.
    pub open spec fn valid(self) -> bool {
        self.wf()
    }
}

/// The keys of the difficulty section are made of letters and digits.
proof fn lemma_difficulty_keys()
    ensures
        is_key("HPDrainRate"@),
        is_key("CircleSize"@),
        is_key("OverallDifficulty"@),
        is_key("ApproachRate"@),
        is_key("SliderMultiplier"@),
        is_key("SliderTickRate"@),
        is_key("Difficulty"@),
        "[Difficulty]"@ == header("Difficulty"@),
{
    reveal_strlit("HPDrainRate");
    reveal_strlit("CircleSize");
    reveal_strlit("OverallDifficulty");
    reveal_strlit("ApproachRate");
    reveal_strlit("SliderMultiplier");
    reveal_strlit("SliderTickRate");
    reveal_strlit("Difficulty");
    reveal_strlit("[Difficulty]");
    assert("[Difficulty]"@ =~= header("Difficulty"@));
}

/// What the line of `HPDrainRate` stores is read back.
proof fn lemma_difficulty_hp_drain_rate(s: DifficultySectionView, x: Seq<char>)
    requires
        is_decimal_text(x),
    ensures
        is_key("HPDrainRate"@),
        is_value(x),
        DifficultySection::assigned(s, "HPDrainRate"@, x) == Ok::<
            DifficultySectionView,
            ErrorView,
        >(DifficultySectionView { hp_drain_rate: x, ..s }),
{
    reveal(crate::sections::difficulty_assigned);
    lemma_difficulty_keys();
    reveal_strlit("HPDrainRate");
    lemma_decimal_reads_back(x);
    lemma_plain_is_value(x);
    lemma_key_matches_itself("HPDrainRate"@);
}

/// What the line of `CircleSize` stores is read back.
proof fn lemma_difficulty_circle_size(s: DifficultySectionView, x: Seq<char>)
    requires
        is_decimal_text(x),
    ensures
        is_key("CircleSize"@),
        is_value(x),
        DifficultySection::assigned(s, "CircleSize"@, x) == Ok::<
            DifficultySectionView,
            ErrorView,
        >(DifficultySectionView { circle_size: x, ..s }),
{
    reveal(crate::sections::difficulty_assigned);
    lemma_difficulty_keys();
    reveal_strlit("HPDrainRate");
    reveal_strlit("CircleSize");
    lemma_decimal_reads_back(x);
    lemma_plain_is_value(x);
    lemma_keys_differ("CircleSize"@, "HPDrainRate"@);
    lemma_key_matches_itself("CircleSize"@);
}

/// What the line of `OverallDifficulty` stores is read back.
proof fn lemma_difficulty_overall_difficulty(s: DifficultySectionView, x: Seq<char>)
    requires
        is_decimal_text(x),
    ensures
        is_key("OverallDifficulty"@),
        is_value(x),
        DifficultySection::assigned(s, "OverallDifficulty"@, x) == Ok::<
            DifficultySectionView,
            ErrorView,
        >(DifficultySectionView { overall_difficulty: x, ..s }),
{
    reveal(crate::sections::difficulty_assigned);
    lemma_difficulty_keys();
    reveal_strlit("HPDrainRate");
    reveal_strlit("CircleSize");
    reveal_strlit("OverallDifficulty");
    lemma_decimal_reads_back(x);
    lemma_plain_is_value(x);
    lemma_keys_differ("OverallDifficulty"@, "HPDrainRate"@);
    lemma_keys_differ("OverallDifficulty"@, "CircleSize"@);
    lemma_key_matches_itself("OverallDifficulty"@);
}

/// What the line of `ApproachRate` stores is read back.
proof fn lemma_difficulty_approach_rate(s: DifficultySectionView, x: Seq<char>)
    requires
        is_decimal_text(x),
    ensures
        is_key("ApproachRate"@),
        is_value(x),
        DifficultySection::assigned(s, "ApproachRate"@, x) == Ok::<
            DifficultySectionView,
            ErrorView,
        >(DifficultySectionView { approach_rate: x, ..s }),
{
    reveal(crate::sections::difficulty_assigned);
    lemma_difficulty_keys();
    reveal_strlit("HPDrainRate");
    reveal_strlit("CircleSize");
    reveal_strlit("OverallDifficulty");
    reveal_strlit("ApproachRate");
    lemma_decimal_reads_back(x);
    lemma_plain_is_value(x);
    lemma_keys_differ("ApproachRate"@, "HPDrainRate"@);
    lemma_keys_differ("ApproachRate"@, "CircleSize"@);
    lemma_keys_differ("ApproachRate"@, "OverallDifficulty"@);
    lemma_key_matches_itself("ApproachRate"@);
}

/// What the line of `SliderMultiplier` stores is read back.
proof fn lemma_difficulty_slider_multiplier(s: DifficultySectionView, x: Seq<char>)
    requires
        is_decimal_text(x),
    ensures
        is_key("SliderMultiplier"@),
        is_value(x),
        DifficultySection::assigned(s, "SliderMultiplier"@, x) == Ok::<
            DifficultySectionView,
            ErrorView,
        >(DifficultySectionView { slider_multiplier: x, ..s }),
{
    reveal(crate::sections::difficulty_assigned);
    lemma_difficulty_keys();
    reveal_strlit("HPDrainRate");
    reveal_strlit("CircleSize");
    reveal_strlit("OverallDifficulty");
    reveal_strlit("ApproachRate");
    reveal_strlit("SliderMultiplier");
    lemma_decimal_reads_back(x);
    lemma_plain_is_value(x);
    lemma_keys_differ("SliderMultiplier"@, "HPDrainRate"@);
    lemma_keys_differ("SliderMultiplier"@, "CircleSize"@);
    lemma_keys_differ("SliderMultiplier"@, "OverallDifficulty"@);
    lemma_keys_differ("SliderMultiplier"@, "ApproachRate"@);
    lemma_key_matches_itself("SliderMultiplier"@);
}

/// What the line of `SliderTickRate` stores is read back.
proof fn lemma_difficulty_slider_tick_rate(s: DifficultySectionView, x: Seq<char>)
    requires
        is_decimal_text(x),
    ensures
        is_key("SliderTickRate"@),
        is_value(x),
        DifficultySection::assigned(s, "SliderTickRate"@, x) == Ok::<
            DifficultySectionView,
            ErrorView,
        >(DifficultySectionView { slider_tick_rate: x, ..s }),
{
    reveal(crate::sections::difficulty_assigned);
    lemma_difficulty_keys();
    reveal_strlit("HPDrainRate");
    reveal_strlit("CircleSize");
    reveal_strlit("OverallDifficulty");
    reveal_strlit("ApproachRate");
    reveal_strlit("SliderMultiplier");
    reveal_strlit("SliderTickRate");
    lemma_decimal_reads_back(x);
    lemma_plain_is_value(x);
    lemma_keys_differ("SliderTickRate"@, "HPDrainRate"@);
    lemma_keys_differ("SliderTickRate"@, "CircleSize"@);
    lemma_keys_differ("SliderTickRate"@, "OverallDifficulty"@);
    lemma_keys_differ("SliderTickRate"@, "ApproachRate"@);
    lemma_keys_differ("SliderTickRate"@, "SliderMultiplier"@);
    lemma_key_matches_itself("SliderTickRate"@);
}

/// The lines of the difficulty section can each stand on a line of its own, and those of
/// them that are not blank are the header and the lines that store something.
pub proof fn lemma_difficulty_lines_shape(v: DifficultySectionView)
    requires
        v.valid(),
    ensures
        are_lines(difficulty_lines(v)),
        difficulty_lines(v).len() == 7,
        unblank(difficulty_lines(v)) == difficulty_lines(v),
{
    let lines = difficulty_lines(v);
    assert(lines.len() == 7);
    assert(is_line(lines[0])) by {
        lemma_difficulty_keys();
        lemma_header_reads_back("Difficulty"@);
    }
    assert(is_line(lines[1])) by {
        lemma_difficulty_keys();
        lemma_decimal_is_value(v.hp_drain_rate);
        lemma_entry_is_line("HPDrainRate"@, v.hp_drain_rate);
    }
    assert(is_line(lines[2])) by {
        lemma_difficulty_keys();
        lemma_decimal_is_value(v.circle_size);
        lemma_entry_is_line("CircleSize"@, v.circle_size);
    }
    assert(is_line(lines[3])) by {
        lemma_difficulty_keys();
        lemma_decimal_is_value(v.overall_difficulty);
        lemma_entry_is_line("OverallDifficulty"@, v.overall_difficulty);
    }
    assert(is_line(lines[4])) by {
        lemma_difficulty_keys();
        lemma_decimal_is_value(v.approach_rate);
        lemma_entry_is_line("ApproachRate"@, v.approach_rate);
    }
    assert(is_line(lines[5])) by {
        lemma_difficulty_keys();
        lemma_decimal_is_value(v.slider_multiplier);
        lemma_entry_is_line("SliderMultiplier"@, v.slider_multiplier);
    }
    assert(is_line(lines[6])) by {
        lemma_difficulty_keys();
        lemma_decimal_is_value(v.slider_tick_rate);
        lemma_entry_is_line("SliderTickRate"@, v.slider_tick_rate);
    }
    assert forall|i: int| 0 <= i < lines.len() implies lacks(#[trigger] lines[i], '\n') && !(
    lines[i].len() > 0 && lines[i].last() == '\r') by {
    }
    lemma_unblank_all(lines);
}

/// The lines of the difficulty section are read back, one after the other.
proof fn lemma_difficulty_scan_all(lines: Seq<(nat, Seq<char>)>, p: nat, v: DifficultySectionView)
    requires
        v.valid(),
        block_at(lines, p, unblank(difficulty_lines(v))),
        pairs_stop_at(lines, p + unblank(difficulty_lines(v)).len()),
    ensures
        scan_pairs::<DifficultySection>(lines, p + 1, default_difficulty()) == (
            Ok::<DifficultySectionView, ErrorView>(v),
            p + unblank(difficulty_lines(v)).len(),
        ),
{
    let block = unblank(difficulty_lines(v));
    lemma_difficulty_lines_shape(v);
    let s0 = default_difficulty();
    let s1 = DifficultySectionView { hp_drain_rate: v.hp_drain_rate, ..s0 };
    assert(scan_pairs::<DifficultySection>(lines, p + 1, s0) == scan_pairs::<DifficultySection>(
        lines,
        p + 2,
        s1,
    )) by {
        lemma_difficulty_hp_drain_rate(s0, v.hp_drain_rate);
        lemma_block_line(lines, p, block, 1);
        assert(block[1] == difficulty_lines(v)[1]);
        lemma_scan_step::<DifficultySection>(
            lines,
            p + 1,
            s0,
            "HPDrainRate"@,
            v.hp_drain_rate,
            s1,
        );
    }
    let s2 = DifficultySectionView { circle_size: v.circle_size, ..s1 };
    assert(scan_pairs::<DifficultySection>(lines, p + 2, s1) == scan_pairs::<DifficultySection>(
        lines,
        p + 3,
        s2,
    )) by {
        lemma_difficulty_circle_size(s1, v.circle_size);
        lemma_block_line(lines, p, block, 2);
        assert(block[2] == difficulty_lines(v)[2]);
        lemma_scan_step::<DifficultySection>(
            lines,
            p + 2,
            s1,
            "CircleSize"@,
            v.circle_size,
            s2,
        );
    }
    let s3 = DifficultySectionView { overall_difficulty: v.overall_difficulty, ..s2 };
    assert(scan_pairs::<DifficultySection>(lines, p + 3, s2) == scan_pairs::<DifficultySection>(
        lines,
        p + 4,
        s3,
    )) by {
        lemma_difficulty_overall_difficulty(s2, v.overall_difficulty);
        lemma_block_line(lines, p, block, 3);
        assert(block[3] == difficulty_lines(v)[3]);
        lemma_scan_step::<DifficultySection>(
            lines,
            p + 3,
            s2,
            "OverallDifficulty"@,
            v.overall_difficulty,
            s3,
        );
    }
    let s4 = DifficultySectionView { approach_rate: v.approach_rate, ..s3 };
    assert(scan_pairs::<DifficultySection>(lines, p + 4, s3) == scan_pairs::<DifficultySection>(
        lines,
        p + 5,
        s4,
    )) by {
        lemma_difficulty_approach_rate(s3, v.approach_rate);
        lemma_block_line(lines, p, block, 4);
        assert(block[4] == difficulty_lines(v)[4]);
        lemma_scan_step::<DifficultySection>(
            lines,
            p + 4,
            s3,
            "ApproachRate"@,
            v.approach_rate,
            s4,
        );
    }
    let s5 = DifficultySectionView { slider_multiplier: v.slider_multiplier, ..s4 };
    assert(scan_pairs::<DifficultySection>(lines, p + 5, s4) == scan_pairs::<DifficultySection>(
        lines,
        p + 6,
        s5,
    )) by {
        lemma_difficulty_slider_multiplier(s4, v.slider_multiplier);
        lemma_block_line(lines, p, block, 5);
        assert(block[5] == difficulty_lines(v)[5]);
        lemma_scan_step::<DifficultySection>(
            lines,
            p + 5,
            s4,
            "SliderMultiplier"@,
            v.slider_multiplier,
            s5,
        );
    }
    let s6 = DifficultySectionView { slider_tick_rate: v.slider_tick_rate, ..s5 };
    assert(scan_pairs::<DifficultySection>(lines, p + 6, s5) == scan_pairs::<DifficultySection>(
        lines,
        p + 7,
        s6,
    )) by {
        lemma_difficulty_slider_tick_rate(s5, v.slider_tick_rate);
        lemma_block_line(lines, p, block, 6);
        assert(block[6] == difficulty_lines(v)[6]);
        lemma_scan_step::<DifficultySection>(
            lines,
            p + 6,
            s5,
            "SliderTickRate"@,
            v.slider_tick_rate,
            s6,
        );
    }
    assert(block.len() == 7);
    lemma_scan_stop::<DifficultySection>(lines, p + 7, s6);
    assert(s6 =~= v);
}

/// The lines of the difficulty section that follow its header are read back.
pub proof fn lemma_difficulty_scan(lines: Seq<(nat, Seq<char>)>, p: nat, v: DifficultySectionView)
    requires
        v.valid(),
        block_at(lines, p, unblank(difficulty_lines(v))),
        pairs_stop_at(lines, p + unblank(difficulty_lines(v)).len()),
    ensures
        scan_pairs::<DifficultySection>(lines, p + 1, default_difficulty()) == (
            Ok::<DifficultySectionView, ErrorView>(v),
            p + unblank(difficulty_lines(v)).len(),
        ),
{
    lemma_difficulty_scan_all(lines, p, v);
}

/// The difficulty section that is written is read back, up to the line that follows it.
pub proof fn lemma_difficulty_section(
    lines: Seq<(nat, Seq<char>)>,
    p: nat,
    v: DifficultySectionView,
)
    requires
        v.valid(),
        block_at(lines, p, unblank(difficulty_lines(v))),
        pairs_stop_at(lines, p + unblank(difficulty_lines(v)).len()),
    ensures
        section_at(lines, p) == (
            Ok::<SectionView, ErrorView>(SectionView::Difficulty(v)),
            p + unblank(difficulty_lines(v)).len(),
        ),
{
    reveal(section_at);
    let block = unblank(difficulty_lines(v));
    lemma_difficulty_lines_shape(v);
    lemma_difficulty_keys();
    lemma_header_reads_back("Difficulty"@);
    lemma_block_line(lines, p, block, 0);
    assert(block[0] == "[Difficulty]"@);
    assert("Difficulty"@ != "General"@) by {
        reveal_strlit("Difficulty");
        reveal_strlit("General");
        assert("Difficulty"@.len() != "General"@.len() || "Difficulty"@[0] != "General"@[0]);
    }
    assert("Difficulty"@ != "Editor"@) by {
        reveal_strlit("Difficulty");
        reveal_strlit("Editor");
        assert("Difficulty"@.len() != "Editor"@.len() || "Difficulty"@[0] != "Editor"@[0]);
    }
    assert("Difficulty"@ != "Metadata"@) by {
        reveal_strlit("Difficulty");
        reveal_strlit("Metadata");
        assert("Difficulty"@.len() != "Metadata"@.len() || "Difficulty"@[0] != "Metadata"@[0]);
    }
    lemma_difficulty_scan(lines, p, v);
}

} // verus!
