use crate::beatmap::{SectionView, section_at};
use crate::error::ErrorView;
use crate::keyed::{KeyedSection, scan_pairs};
use crate::model::{GameMode, GeneralSection, GeneralSectionView};
use crate::number::{int_text, is_decimal_text};
use crate::readback::joining::lacks;
use crate::readback::keys::{
    block_at, header, is_key, is_line, lemma_block_line, lemma_decimal_is_value,
    lemma_entry_is_line, lemma_flag_is_value, lemma_header_reads_back, lemma_key_matches_itself,
    lemma_keys_differ, lemma_keys_match, lemma_mode_is_value, lemma_number_is_value,
    lemma_plain_is_value, lemma_scan_step, lemma_scan_stop, pairs_stop_at,
};
use crate::readback::lines::{are_lines, lemma_unblank_all, unblank};
use crate::readback::records::{
    is_value, lemma_decimal_reads_back, lemma_flag_reads_back, lemma_mode_reads_back,
    lemma_number_reads_back,
};
use crate::sections::default_general;
use crate::serialize::{flag_text, general_lines, mode_text};
use vstd::prelude::*;

verus! {

impl GeneralSectionView {
    /// Whether the section is read back once it is written: its texts can stand as
    /// values, and its real number is written as such.
    pub open spec fn valid(self) -> bool {
        &&& self.wf()
        &&& is_value(self.audio_filename)
        &&& is_value(self.sample_set)
        &&& is_value(self.skin_preference)
    }
}

/// The keys of the general section are made of letters and digits.
proof fn lemma_general_keys()
    ensures
        is_key("AudioFilename"@),
        is_key("AudioLeadIn"@),
        is_key("PreviewTime"@),
        is_key("Countdown"@),
        is_key("CountdownOffset"@),
        is_key("SampleSet"@),
        is_key("SkinPreference"@),
        is_key("StackLeniency"@),
        is_key("Mode"@),
        is_key("LetterboxInBreaks"@),
        is_key("WidescreenStoryboard"@),
        is_key("EpilepsyWarning"@),
        is_key("StoryFireInFront"@),
        is_key("SpecialStyle"@),
        is_key("UseSkinSprites"@),
        is_key("Previewtime"@),
        is_key("General"@),
        "[General]"@ == header("General"@),
{
    reveal_strlit("AudioFilename");
    reveal_strlit("AudioLeadIn");
    reveal_strlit("PreviewTime");
    reveal_strlit("Countdown");
    reveal_strlit("CountdownOffset");
    reveal_strlit("SampleSet");
    reveal_strlit("SkinPreference");
    reveal_strlit("StackLeniency");
    reveal_strlit("Mode");
    reveal_strlit("LetterboxInBreaks");
    reveal_strlit("WidescreenStoryboard");
    reveal_strlit("EpilepsyWarning");
    reveal_strlit("StoryFireInFront");
    reveal_strlit("SpecialStyle");
    reveal_strlit("UseSkinSprites");
    reveal_strlit("Previewtime");
    reveal_strlit("General");
    reveal_strlit("[General]");
    assert("[General]"@ =~= header("General"@));
}

/// What the line of `AudioFilename` stores is read back.
proof fn lemma_general_audio_filename(s: GeneralSectionView, x: Seq<char>)
    requires
        is_value(x),
    ensures
        is_key("AudioFilename"@),
        is_value(x),
        GeneralSection::assigned(s, "AudioFilename"@, x) == Ok::<
            GeneralSectionView,
            ErrorView,
        >(GeneralSectionView { audio_filename: x, ..s }),
{
    reveal(crate::sections::general_assigned);
    lemma_general_keys();
    reveal_strlit("AudioFilename");
    lemma_key_matches_itself("AudioFilename"@);
}

/// What the line of `AudioLeadIn` stores is read back.
proof fn lemma_general_audio_lead_in(s: GeneralSectionView, x: i32)
    ensures
        is_key("AudioLeadIn"@),
        is_value(int_text(x as int)),
        GeneralSection::assigned(s, "AudioLeadIn"@, int_text(x as int)) == Ok::<
            GeneralSectionView,
            ErrorView,
        >(GeneralSectionView { audio_lead_in: x, ..s }),
{
    reveal(crate::sections::general_assigned);
    lemma_general_keys();
    reveal_strlit("AudioFilename");
    reveal_strlit("AudioLeadIn");
    lemma_number_reads_back(x);
    lemma_plain_is_value(int_text(x as int));
    lemma_keys_differ("AudioLeadIn"@, "AudioFilename"@);
    lemma_key_matches_itself("AudioLeadIn"@);
}

/// What the line of `Previewtime` stores is read back.
proof fn lemma_general_preview_time(s: GeneralSectionView, x: i32)
    ensures
        is_key("Previewtime"@),
        is_value(int_text(x as int)),
        GeneralSection::assigned(s, "Previewtime"@, int_text(x as int)) == Ok::<
            GeneralSectionView,
            ErrorView,
        >(GeneralSectionView { preview_time: x, ..s }),
{
    reveal(crate::sections::general_assigned);
    lemma_general_keys();
    reveal_strlit("AudioFilename");
    reveal_strlit("AudioLeadIn");
    reveal_strlit("PreviewTime");
    reveal_strlit("Previewtime");
    lemma_number_reads_back(x);
    lemma_plain_is_value(int_text(x as int));
    lemma_keys_differ("Previewtime"@, "AudioFilename"@);
    lemma_keys_differ("Previewtime"@, "AudioLeadIn"@);
    lemma_keys_match("Previewtime"@, "PreviewTime"@);
}

/// What the line of `Countdown` stores is read back.
proof fn lemma_general_countdown(s: GeneralSectionView, x: bool)
    ensures
        is_key("Countdown"@),
        is_value(flag_text(x)),
        GeneralSection::assigned(s, "Countdown"@, flag_text(x)) == Ok::<
            GeneralSectionView,
            ErrorView,
        >(GeneralSectionView { countdown: x, ..s }),
{
    reveal(crate::sections::general_assigned);
    lemma_general_keys();
    reveal_strlit("AudioFilename");
    reveal_strlit("AudioLeadIn");
    reveal_strlit("PreviewTime");
    reveal_strlit("Countdown");
    lemma_flag_reads_back(x);
    lemma_plain_is_value(flag_text(x));
    lemma_keys_differ("Countdown"@, "AudioFilename"@);
    lemma_keys_differ("Countdown"@, "AudioLeadIn"@);
    lemma_keys_differ("Countdown"@, "PreviewTime"@);
    lemma_key_matches_itself("Countdown"@);
}

/// What the line of `SampleSet` stores is read back.
proof fn lemma_general_sample_set(s: GeneralSectionView, x: Seq<char>)
    requires
        is_value(x),
    ensures
        is_key("SampleSet"@),
        is_value(x),
        GeneralSection::assigned(s, "SampleSet"@, x) == Ok::<
            GeneralSectionView,
            ErrorView,
        >(GeneralSectionView { sample_set: x, ..s }),
{
    reveal(crate::sections::general_assigned);
    lemma_general_keys();
    reveal_strlit("AudioFilename");
    reveal_strlit("AudioLeadIn");
    reveal_strlit("PreviewTime");
    reveal_strlit("Countdown");
    reveal_strlit("CountdownOffset");
    reveal_strlit("SampleSet");
    lemma_keys_differ("SampleSet"@, "AudioFilename"@);
    lemma_keys_differ("SampleSet"@, "AudioLeadIn"@);
    lemma_keys_differ("SampleSet"@, "PreviewTime"@);
    lemma_keys_differ("SampleSet"@, "Countdown"@);
    lemma_keys_differ("SampleSet"@, "CountdownOffset"@);
    lemma_key_matches_itself("SampleSet"@);
}

/// What the line of `StackLeniency` stores is read back.
proof fn lemma_general_stack_leniency(s: GeneralSectionView, x: Seq<char>)
    requires
        is_decimal_text(x),
    ensures
        is_key("StackLeniency"@),
        is_value(x),
        GeneralSection::assigned(s, "StackLeniency"@, x) == Ok::<
            GeneralSectionView,
            ErrorView,
        >(GeneralSectionView { stack_leniency: x, ..s }),
{
    reveal(crate::sections::general_assigned);
    lemma_general_keys();
    reveal_strlit("AudioFilename");
    reveal_strlit("AudioLeadIn");
    reveal_strlit("PreviewTime");
    reveal_strlit("Countdown");
    reveal_strlit("CountdownOffset");
    reveal_strlit("SampleSet");
    reveal_strlit("SkinPreference");
    reveal_strlit("StackLeniency");
    lemma_decimal_reads_back(x);
    lemma_plain_is_value(x);
    lemma_keys_differ("StackLeniency"@, "AudioFilename"@);
    lemma_keys_differ("StackLeniency"@, "AudioLeadIn"@);
    lemma_keys_differ("StackLeniency"@, "PreviewTime"@);
    lemma_keys_differ("StackLeniency"@, "Countdown"@);
    lemma_keys_differ("StackLeniency"@, "CountdownOffset"@);
    lemma_keys_differ("StackLeniency"@, "SampleSet"@);
    lemma_keys_differ("StackLeniency"@, "SkinPreference"@);
    lemma_key_matches_itself("StackLeniency"@);
}

/// What the line of `Mode` stores is read back.
proof fn lemma_general_game_mode(s: GeneralSectionView, x: GameMode)
    ensures
        is_key("Mode"@),
        is_value(mode_text(x)),
        GeneralSection::assigned(s, "Mode"@, mode_text(x)) == Ok::<
            GeneralSectionView,
            ErrorView,
        >(GeneralSectionView { game_mode: x, ..s }),
{
    reveal(crate::sections::general_assigned);
    lemma_general_keys();
    reveal_strlit("AudioFilename");
    reveal_strlit("AudioLeadIn");
    reveal_strlit("PreviewTime");
    reveal_strlit("Countdown");
    reveal_strlit("CountdownOffset");
    reveal_strlit("SampleSet");
    reveal_strlit("SkinPreference");
    reveal_strlit("StackLeniency");
    reveal_strlit("Mode");
    lemma_mode_reads_back(x);
    lemma_plain_is_value(mode_text(x));
    lemma_keys_differ("Mode"@, "AudioFilename"@);
    lemma_keys_differ("Mode"@, "AudioLeadIn"@);
    lemma_keys_differ("Mode"@, "PreviewTime"@);
    lemma_keys_differ("Mode"@, "Countdown"@);
    lemma_keys_differ("Mode"@, "CountdownOffset"@);
    lemma_keys_differ("Mode"@, "SampleSet"@);
    lemma_keys_differ("Mode"@, "SkinPreference"@);
    lemma_keys_differ("Mode"@, "StackLeniency"@);
    lemma_key_matches_itself("Mode"@);
}

/// What the line of `LetterboxInBreaks` stores is read back.
proof fn lemma_general_letterbox_in_breaks(s: GeneralSectionView, x: bool)
    ensures
        is_key("LetterboxInBreaks"@),
        is_value(flag_text(x)),
        GeneralSection::assigned(s, "LetterboxInBreaks"@, flag_text(x)) == Ok::<
            GeneralSectionView,
            ErrorView,
        >(GeneralSectionView { letterbox_in_breaks: x, ..s }),
{
    reveal(crate::sections::general_assigned);
    lemma_general_keys();
    reveal_strlit("AudioFilename");
    reveal_strlit("AudioLeadIn");
    reveal_strlit("PreviewTime");
    reveal_strlit("Countdown");
    reveal_strlit("CountdownOffset");
    reveal_strlit("SampleSet");
    reveal_strlit("SkinPreference");
    reveal_strlit("StackLeniency");
    reveal_strlit("Mode");
    reveal_strlit("LetterboxInBreaks");
    lemma_flag_reads_back(x);
    lemma_plain_is_value(flag_text(x));
    lemma_keys_differ("LetterboxInBreaks"@, "AudioFilename"@);
    lemma_keys_differ("LetterboxInBreaks"@, "AudioLeadIn"@);
    lemma_keys_differ("LetterboxInBreaks"@, "PreviewTime"@);
    lemma_keys_differ("LetterboxInBreaks"@, "Countdown"@);
    lemma_keys_differ("LetterboxInBreaks"@, "CountdownOffset"@);
    lemma_keys_differ("LetterboxInBreaks"@, "SampleSet"@);
    lemma_keys_differ("LetterboxInBreaks"@, "SkinPreference"@);
    lemma_keys_differ("LetterboxInBreaks"@, "StackLeniency"@);
    lemma_keys_differ("LetterboxInBreaks"@, "Mode"@);
    lemma_key_matches_itself("LetterboxInBreaks"@);
}

/// What the line of `WidescreenStoryboard` stores is read back.
proof fn lemma_general_widescreen_storyboard(s: GeneralSectionView, x: bool)
    ensures
        is_key("WidescreenStoryboard"@),
        is_value(flag_text(x)),
        GeneralSection::assigned(s, "WidescreenStoryboard"@, flag_text(x)) == Ok::<
            GeneralSectionView,
            ErrorView,
        >(GeneralSectionView { widescreen_storyboard: x, ..s }),
{
    reveal(crate::sections::general_assigned);
    lemma_general_keys();
    reveal_strlit("AudioFilename");
    reveal_strlit("AudioLeadIn");
    reveal_strlit("PreviewTime");
    reveal_strlit("Countdown");
    reveal_strlit("CountdownOffset");
    reveal_strlit("SampleSet");
    reveal_strlit("SkinPreference");
    reveal_strlit("StackLeniency");
    reveal_strlit("Mode");
    reveal_strlit("LetterboxInBreaks");
    reveal_strlit("WidescreenStoryboard");
    lemma_flag_reads_back(x);
    lemma_plain_is_value(flag_text(x));
    lemma_keys_differ("WidescreenStoryboard"@, "AudioFilename"@);
    lemma_keys_differ("WidescreenStoryboard"@, "AudioLeadIn"@);
    lemma_keys_differ("WidescreenStoryboard"@, "PreviewTime"@);
    lemma_keys_differ("WidescreenStoryboard"@, "Countdown"@);
    lemma_keys_differ("WidescreenStoryboard"@, "CountdownOffset"@);
    lemma_keys_differ("WidescreenStoryboard"@, "SampleSet"@);
    lemma_keys_differ("WidescreenStoryboard"@, "SkinPreference"@);
    lemma_keys_differ("WidescreenStoryboard"@, "StackLeniency"@);
    lemma_keys_differ("WidescreenStoryboard"@, "Mode"@);
    lemma_keys_differ("WidescreenStoryboard"@, "LetterboxInBreaks"@);
    lemma_key_matches_itself("WidescreenStoryboard"@);
}

/// What the line of `StoryFireInFront` stores is read back.
proof fn lemma_general_story_fire_in_front(s: GeneralSectionView, x: bool)
    ensures
        is_key("StoryFireInFront"@),
        is_value(flag_text(x)),
        GeneralSection::assigned(s, "StoryFireInFront"@, flag_text(x)) == Ok::<
            GeneralSectionView,
            ErrorView,
        >(GeneralSectionView { story_fire_in_front: x, ..s }),
{
    reveal(crate::sections::general_assigned);
    lemma_general_keys();
    reveal_strlit("AudioFilename");
    reveal_strlit("AudioLeadIn");
    reveal_strlit("PreviewTime");
    reveal_strlit("Countdown");
    reveal_strlit("CountdownOffset");
    reveal_strlit("SampleSet");
    reveal_strlit("SkinPreference");
    reveal_strlit("StackLeniency");
    reveal_strlit("Mode");
    reveal_strlit("LetterboxInBreaks");
    reveal_strlit("WidescreenStoryboard");
    reveal_strlit("EpilepsyWarning");
    reveal_strlit("StoryFireInFront");
    lemma_flag_reads_back(x);
    lemma_plain_is_value(flag_text(x));
    lemma_keys_differ("StoryFireInFront"@, "AudioFilename"@);
    lemma_keys_differ("StoryFireInFront"@, "AudioLeadIn"@);
    lemma_keys_differ("StoryFireInFront"@, "PreviewTime"@);
    lemma_keys_differ("StoryFireInFront"@, "Countdown"@);
    lemma_keys_differ("StoryFireInFront"@, "CountdownOffset"@);
    lemma_keys_differ("StoryFireInFront"@, "SampleSet"@);
    lemma_keys_differ("StoryFireInFront"@, "SkinPreference"@);
    lemma_keys_differ("StoryFireInFront"@, "StackLeniency"@);
    lemma_keys_differ("StoryFireInFront"@, "Mode"@);
    lemma_keys_differ("StoryFireInFront"@, "LetterboxInBreaks"@);
    lemma_keys_differ("StoryFireInFront"@, "WidescreenStoryboard"@);
    lemma_keys_differ("StoryFireInFront"@, "EpilepsyWarning"@);
    lemma_key_matches_itself("StoryFireInFront"@);
}

/// What the line of `SpecialStyle` stores is read back.
proof fn lemma_general_special_style(s: GeneralSectionView, x: bool)
    ensures
        is_key("SpecialStyle"@),
        is_value(flag_text(x)),
        GeneralSection::assigned(s, "SpecialStyle"@, flag_text(x)) == Ok::<
            GeneralSectionView,
            ErrorView,
        >(GeneralSectionView { special_style: x, ..s }),
{
    reveal(crate::sections::general_assigned);
    lemma_general_keys();
    reveal_strlit("AudioFilename");
    reveal_strlit("AudioLeadIn");
    reveal_strlit("PreviewTime");
    reveal_strlit("Countdown");
    reveal_strlit("CountdownOffset");
    reveal_strlit("SampleSet");
    reveal_strlit("SkinPreference");
    reveal_strlit("StackLeniency");
    reveal_strlit("Mode");
    reveal_strlit("LetterboxInBreaks");
    reveal_strlit("WidescreenStoryboard");
    reveal_strlit("EpilepsyWarning");
    reveal_strlit("StoryFireInFront");
    reveal_strlit("SpecialStyle");
    lemma_flag_reads_back(x);
    lemma_plain_is_value(flag_text(x));
    lemma_keys_differ("SpecialStyle"@, "AudioFilename"@);
    lemma_keys_differ("SpecialStyle"@, "AudioLeadIn"@);
    lemma_keys_differ("SpecialStyle"@, "PreviewTime"@);
    lemma_keys_differ("SpecialStyle"@, "Countdown"@);
    lemma_keys_differ("SpecialStyle"@, "CountdownOffset"@);
    lemma_keys_differ("SpecialStyle"@, "SampleSet"@);
    lemma_keys_differ("SpecialStyle"@, "SkinPreference"@);
    lemma_keys_differ("SpecialStyle"@, "StackLeniency"@);
    lemma_keys_differ("SpecialStyle"@, "Mode"@);
    lemma_keys_differ("SpecialStyle"@, "LetterboxInBreaks"@);
    lemma_keys_differ("SpecialStyle"@, "WidescreenStoryboard"@);
    lemma_keys_differ("SpecialStyle"@, "EpilepsyWarning"@);
    lemma_keys_differ("SpecialStyle"@, "StoryFireInFront"@);
    lemma_key_matches_itself("SpecialStyle"@);
}

/// What the line of `EpilepsyWarning` stores is read back.
proof fn lemma_general_epilepsy_warning(s: GeneralSectionView, x: bool)
    ensures
        is_key("EpilepsyWarning"@),
        is_value(flag_text(x)),
        GeneralSection::assigned(s, "EpilepsyWarning"@, flag_text(x)) == Ok::<
            GeneralSectionView,
            ErrorView,
        >(GeneralSectionView { epilepsy_warning: x, ..s }),
{
    reveal(crate::sections::general_assigned);
    lemma_general_keys();
    reveal_strlit("AudioFilename");
    reveal_strlit("AudioLeadIn");
    reveal_strlit("PreviewTime");
    reveal_strlit("Countdown");
    reveal_strlit("CountdownOffset");
    reveal_strlit("SampleSet");
    reveal_strlit("SkinPreference");
    reveal_strlit("StackLeniency");
    reveal_strlit("Mode");
    reveal_strlit("LetterboxInBreaks");
    reveal_strlit("WidescreenStoryboard");
    reveal_strlit("EpilepsyWarning");
    lemma_flag_reads_back(x);
    lemma_plain_is_value(flag_text(x));
    lemma_keys_differ("EpilepsyWarning"@, "AudioFilename"@);
    lemma_keys_differ("EpilepsyWarning"@, "AudioLeadIn"@);
    lemma_keys_differ("EpilepsyWarning"@, "PreviewTime"@);
    lemma_keys_differ("EpilepsyWarning"@, "Countdown"@);
    lemma_keys_differ("EpilepsyWarning"@, "CountdownOffset"@);
    lemma_keys_differ("EpilepsyWarning"@, "SampleSet"@);
    lemma_keys_differ("EpilepsyWarning"@, "SkinPreference"@);
    lemma_keys_differ("EpilepsyWarning"@, "StackLeniency"@);
    lemma_keys_differ("EpilepsyWarning"@, "Mode"@);
    lemma_keys_differ("EpilepsyWarning"@, "LetterboxInBreaks"@);
    lemma_keys_differ("EpilepsyWarning"@, "WidescreenStoryboard"@);
    lemma_key_matches_itself("EpilepsyWarning"@);
}

/// What the line of `UseSkinSprites` stores is read back.
proof fn lemma_general_use_skin_sprites(s: GeneralSectionView, x: bool)
    ensures
        is_key("UseSkinSprites"@),
        is_value(flag_text(x)),
        GeneralSection::assigned(s, "UseSkinSprites"@, flag_text(x)) == Ok::<
            GeneralSectionView,
            ErrorView,
        >(GeneralSectionView { use_skin_sprites: x, ..s }),
{
    reveal(crate::sections::general_assigned);
    lemma_general_keys();
    reveal_strlit("AudioFilename");
    reveal_strlit("AudioLeadIn");
    reveal_strlit("PreviewTime");
    reveal_strlit("Countdown");
    reveal_strlit("CountdownOffset");
    reveal_strlit("SampleSet");
    reveal_strlit("SkinPreference");
    reveal_strlit("StackLeniency");
    reveal_strlit("Mode");
    reveal_strlit("LetterboxInBreaks");
    reveal_strlit("WidescreenStoryboard");
    reveal_strlit("EpilepsyWarning");
    reveal_strlit("StoryFireInFront");
    reveal_strlit("SpecialStyle");
    reveal_strlit("UseSkinSprites");
    lemma_flag_reads_back(x);
    lemma_plain_is_value(flag_text(x));
    lemma_keys_differ("UseSkinSprites"@, "AudioFilename"@);
    lemma_keys_differ("UseSkinSprites"@, "AudioLeadIn"@);
    lemma_keys_differ("UseSkinSprites"@, "PreviewTime"@);
    lemma_keys_differ("UseSkinSprites"@, "Countdown"@);
    lemma_keys_differ("UseSkinSprites"@, "CountdownOffset"@);
    lemma_keys_differ("UseSkinSprites"@, "SampleSet"@);
    lemma_keys_differ("UseSkinSprites"@, "SkinPreference"@);
    lemma_keys_differ("UseSkinSprites"@, "StackLeniency"@);
    lemma_keys_differ("UseSkinSprites"@, "Mode"@);
    lemma_keys_differ("UseSkinSprites"@, "LetterboxInBreaks"@);
    lemma_keys_differ("UseSkinSprites"@, "WidescreenStoryboard"@);
    lemma_keys_differ("UseSkinSprites"@, "EpilepsyWarning"@);
    lemma_keys_differ("UseSkinSprites"@, "StoryFireInFront"@);
    lemma_keys_differ("UseSkinSprites"@, "SpecialStyle"@);
    lemma_key_matches_itself("UseSkinSprites"@);
}

/// What the line of `CountdownOffset` stores is read back.
proof fn lemma_general_countdown_offset(s: GeneralSectionView, x: i32)
    ensures
        is_key("CountdownOffset"@),
        is_value(int_text(x as int)),
        GeneralSection::assigned(s, "CountdownOffset"@, int_text(x as int)) == Ok::<
            GeneralSectionView,
            ErrorView,
        >(GeneralSectionView { countdown_offset: x, ..s }),
{
    reveal(crate::sections::general_assigned);
    lemma_general_keys();
    reveal_strlit("AudioFilename");
    reveal_strlit("AudioLeadIn");
    reveal_strlit("PreviewTime");
    reveal_strlit("Countdown");
    reveal_strlit("CountdownOffset");
    lemma_number_reads_back(x);
    lemma_plain_is_value(int_text(x as int));
    lemma_keys_differ("CountdownOffset"@, "AudioFilename"@);
    lemma_keys_differ("CountdownOffset"@, "AudioLeadIn"@);
    lemma_keys_differ("CountdownOffset"@, "PreviewTime"@);
    lemma_keys_differ("CountdownOffset"@, "Countdown"@);
    lemma_key_matches_itself("CountdownOffset"@);
}

/// What the line of `SkinPreference` stores is read back.
proof fn lemma_general_skin_preference(s: GeneralSectionView, x: Seq<char>)
    requires
        is_value(x),
    ensures
        is_key("SkinPreference"@),
        is_value(x),
        GeneralSection::assigned(s, "SkinPreference"@, x) == Ok::<
            GeneralSectionView,
            ErrorView,
        >(GeneralSectionView { skin_preference: x, ..s }),
{
    reveal(crate::sections::general_assigned);
    lemma_general_keys();
    reveal_strlit("AudioFilename");
    reveal_strlit("AudioLeadIn");
    reveal_strlit("PreviewTime");
    reveal_strlit("Countdown");
    reveal_strlit("CountdownOffset");
    reveal_strlit("SampleSet");
    reveal_strlit("SkinPreference");
    lemma_keys_differ("SkinPreference"@, "AudioFilename"@);
    lemma_keys_differ("SkinPreference"@, "AudioLeadIn"@);
    lemma_keys_differ("SkinPreference"@, "PreviewTime"@);
    lemma_keys_differ("SkinPreference"@, "Countdown"@);
    lemma_keys_differ("SkinPreference"@, "CountdownOffset"@);
    lemma_keys_differ("SkinPreference"@, "SampleSet"@);
    lemma_key_matches_itself("SkinPreference"@);
}

/// The lines of the general section can each stand on a line of its own, and those of
/// them that are not blank are the header and the lines that store something.
pub proof fn lemma_general_lines_shape(v: GeneralSectionView)
    requires
        v.valid(),
    ensures
        are_lines(general_lines(v)),
        general_lines(v).len() == 16,
        unblank(general_lines(v)) == general_lines(v),
{
    let lines = general_lines(v);
    assert(lines.len() == 16);
    assert(is_line(lines[0])) by {
        lemma_general_keys();
        lemma_header_reads_back("General"@);
    }
    assert(is_line(lines[1])) by {
        lemma_general_keys();
        lemma_entry_is_line("AudioFilename"@, v.audio_filename);
    }
    assert(is_line(lines[2])) by {
        lemma_general_keys();
        lemma_number_is_value(v.audio_lead_in);
        lemma_entry_is_line("AudioLeadIn"@, int_text(v.audio_lead_in as int));
    }
    assert(is_line(lines[3])) by {
        lemma_general_keys();
        lemma_number_is_value(v.preview_time);
        lemma_entry_is_line("Previewtime"@, int_text(v.preview_time as int));
    }
    assert(is_line(lines[4])) by {
        lemma_general_keys();
        lemma_flag_is_value(v.countdown);
        lemma_entry_is_line("Countdown"@, flag_text(v.countdown));
    }
    assert(is_line(lines[5])) by {
        lemma_general_keys();
        lemma_entry_is_line("SampleSet"@, v.sample_set);
    }
    assert(is_line(lines[6])) by {
        lemma_general_keys();
        lemma_decimal_is_value(v.stack_leniency);
        lemma_entry_is_line("StackLeniency"@, v.stack_leniency);
    }
    assert(is_line(lines[7])) by {
        lemma_general_keys();
        lemma_mode_is_value(v.game_mode);
        lemma_entry_is_line("Mode"@, mode_text(v.game_mode));
    }
    assert(is_line(lines[8])) by {
        lemma_general_keys();
        lemma_flag_is_value(v.letterbox_in_breaks);
        lemma_entry_is_line("LetterboxInBreaks"@, flag_text(v.letterbox_in_breaks));
    }
    assert(is_line(lines[9])) by {
        lemma_general_keys();
        lemma_flag_is_value(v.widescreen_storyboard);
        lemma_entry_is_line("WidescreenStoryboard"@, flag_text(v.widescreen_storyboard));
    }
    assert(is_line(lines[10])) by {
        lemma_general_keys();
        lemma_flag_is_value(v.story_fire_in_front);
        lemma_entry_is_line("StoryFireInFront"@, flag_text(v.story_fire_in_front));
    }
    assert(is_line(lines[11])) by {
        lemma_general_keys();
        lemma_flag_is_value(v.special_style);
        lemma_entry_is_line("SpecialStyle"@, flag_text(v.special_style));
    }
    assert(is_line(lines[12])) by {
        lemma_general_keys();
        lemma_flag_is_value(v.epilepsy_warning);
        lemma_entry_is_line("EpilepsyWarning"@, flag_text(v.epilepsy_warning));
    }
    assert(is_line(lines[13])) by {
        lemma_general_keys();
        lemma_flag_is_value(v.use_skin_sprites);
        lemma_entry_is_line("UseSkinSprites"@, flag_text(v.use_skin_sprites));
    }
    assert(is_line(lines[14])) by {
        lemma_general_keys();
        lemma_number_is_value(v.countdown_offset);
        lemma_entry_is_line("CountdownOffset"@, int_text(v.countdown_offset as int));
    }
    assert(is_line(lines[15])) by {
        lemma_general_keys();
        lemma_entry_is_line("SkinPreference"@, v.skin_preference);
    }
    assert forall|i: int| 0 <= i < lines.len() implies lacks(#[trigger] lines[i], '\n') && !(
    lines[i].len() > 0 && lines[i].last() == '\r') by {
    }
    lemma_unblank_all(lines);
}

/// The lines of the general section are read back, one after the other.
proof fn lemma_general_scan_all(lines: Seq<(nat, Seq<char>)>, p: nat, v: GeneralSectionView)
    requires
        v.valid(),
        block_at(lines, p, unblank(general_lines(v))),
        pairs_stop_at(lines, p + unblank(general_lines(v)).len()),
    ensures
        scan_pairs::<GeneralSection>(lines, p + 1, default_general()) == (
            Ok::<GeneralSectionView, ErrorView>(v),
            p + unblank(general_lines(v)).len(),
        ),
{
    let block = unblank(general_lines(v));
    lemma_general_lines_shape(v);
    let s0 = default_general();
    let s1 = GeneralSectionView { audio_filename: v.audio_filename, ..s0 };
    assert(scan_pairs::<GeneralSection>(lines, p + 1, s0) == scan_pairs::<GeneralSection>(
        lines,
        p + 2,
        s1,
    )) by {
        lemma_general_audio_filename(s0, v.audio_filename);
        lemma_block_line(lines, p, block, 1);
        assert(block[1] == general_lines(v)[1]);
        lemma_scan_step::<GeneralSection>(
            lines,
            p + 1,
            s0,
            "AudioFilename"@,
            v.audio_filename,
            s1,
        );
    }
    let s2 = GeneralSectionView { audio_lead_in: v.audio_lead_in, ..s1 };
    assert(scan_pairs::<GeneralSection>(lines, p + 2, s1) == scan_pairs::<GeneralSection>(
        lines,
        p + 3,
        s2,
    )) by {
        lemma_general_audio_lead_in(s1, v.audio_lead_in);
        lemma_block_line(lines, p, block, 2);
        assert(block[2] == general_lines(v)[2]);
        lemma_scan_step::<GeneralSection>(
            lines,
            p + 2,
            s1,
            "AudioLeadIn"@,
            int_text(v.audio_lead_in as int),
            s2,
        );
    }
    let s3 = GeneralSectionView { preview_time: v.preview_time, ..s2 };
    assert(scan_pairs::<GeneralSection>(lines, p + 3, s2) == scan_pairs::<GeneralSection>(
        lines,
        p + 4,
        s3,
    )) by {
        lemma_general_preview_time(s2, v.preview_time);
        lemma_block_line(lines, p, block, 3);
        assert(block[3] == general_lines(v)[3]);
        lemma_scan_step::<GeneralSection>(
            lines,
            p + 3,
            s2,
            "Previewtime"@,
            int_text(v.preview_time as int),
            s3,
        );
    }
    let s4 = GeneralSectionView { countdown: v.countdown, ..s3 };
    assert(scan_pairs::<GeneralSection>(lines, p + 4, s3) == scan_pairs::<GeneralSection>(
        lines,
        p + 5,
        s4,
    )) by {
        lemma_general_countdown(s3, v.countdown);
        lemma_block_line(lines, p, block, 4);
        assert(block[4] == general_lines(v)[4]);
        lemma_scan_step::<GeneralSection>(
            lines,
            p + 4,
            s3,
            "Countdown"@,
            flag_text(v.countdown),
            s4,
        );
    }
    let s5 = GeneralSectionView { sample_set: v.sample_set, ..s4 };
    assert(scan_pairs::<GeneralSection>(lines, p + 5, s4) == scan_pairs::<GeneralSection>(
        lines,
        p + 6,
        s5,
    )) by {
        lemma_general_sample_set(s4, v.sample_set);
        lemma_block_line(lines, p, block, 5);
        assert(block[5] == general_lines(v)[5]);
        lemma_scan_step::<GeneralSection>(
            lines,
            p + 5,
            s4,
            "SampleSet"@,
            v.sample_set,
            s5,
        );
    }
    let s6 = GeneralSectionView { stack_leniency: v.stack_leniency, ..s5 };
    assert(scan_pairs::<GeneralSection>(lines, p + 6, s5) == scan_pairs::<GeneralSection>(
        lines,
        p + 7,
        s6,
    )) by {
        lemma_general_stack_leniency(s5, v.stack_leniency);
        lemma_block_line(lines, p, block, 6);
        assert(block[6] == general_lines(v)[6]);
        lemma_scan_step::<GeneralSection>(
            lines,
            p + 6,
            s5,
            "StackLeniency"@,
            v.stack_leniency,
            s6,
        );
    }
    let s7 = GeneralSectionView { game_mode: v.game_mode, ..s6 };
    assert(scan_pairs::<GeneralSection>(lines, p + 7, s6) == scan_pairs::<GeneralSection>(
        lines,
        p + 8,
        s7,
    )) by {
        lemma_general_game_mode(s6, v.game_mode);
        lemma_block_line(lines, p, block, 7);
        assert(block[7] == general_lines(v)[7]);
        lemma_scan_step::<GeneralSection>(
            lines,
            p + 7,
            s6,
            "Mode"@,
            mode_text(v.game_mode),
            s7,
        );
    }
    let s8 = GeneralSectionView { letterbox_in_breaks: v.letterbox_in_breaks, ..s7 };
    assert(scan_pairs::<GeneralSection>(lines, p + 8, s7) == scan_pairs::<GeneralSection>(
        lines,
        p + 9,
        s8,
    )) by {
        lemma_general_letterbox_in_breaks(s7, v.letterbox_in_breaks);
        lemma_block_line(lines, p, block, 8);
        assert(block[8] == general_lines(v)[8]);
        lemma_scan_step::<GeneralSection>(
            lines,
            p + 8,
            s7,
            "LetterboxInBreaks"@,
            flag_text(v.letterbox_in_breaks),
            s8,
        );
    }
    let s9 = GeneralSectionView { widescreen_storyboard: v.widescreen_storyboard, ..s8 };
    assert(scan_pairs::<GeneralSection>(lines, p + 9, s8) == scan_pairs::<GeneralSection>(
        lines,
        p + 10,
        s9,
    )) by {
        lemma_general_widescreen_storyboard(s8, v.widescreen_storyboard);
        lemma_block_line(lines, p, block, 9);
        assert(block[9] == general_lines(v)[9]);
        lemma_scan_step::<GeneralSection>(
            lines,
            p + 9,
            s8,
            "WidescreenStoryboard"@,
            flag_text(v.widescreen_storyboard),
            s9,
        );
    }
    let s10 = GeneralSectionView { story_fire_in_front: v.story_fire_in_front, ..s9 };
    assert(scan_pairs::<GeneralSection>(lines, p + 10, s9) == scan_pairs::<GeneralSection>(
        lines,
        p + 11,
        s10,
    )) by {
        lemma_general_story_fire_in_front(s9, v.story_fire_in_front);
        lemma_block_line(lines, p, block, 10);
        assert(block[10] == general_lines(v)[10]);
        lemma_scan_step::<GeneralSection>(
            lines,
            p + 10,
            s9,
            "StoryFireInFront"@,
            flag_text(v.story_fire_in_front),
            s10,
        );
    }
    let s11 = GeneralSectionView { special_style: v.special_style, ..s10 };
    assert(scan_pairs::<GeneralSection>(lines, p + 11, s10) == scan_pairs::<GeneralSection>(
        lines,
        p + 12,
        s11,
    )) by {
        lemma_general_special_style(s10, v.special_style);
        lemma_block_line(lines, p, block, 11);
        assert(block[11] == general_lines(v)[11]);
        lemma_scan_step::<GeneralSection>(
            lines,
            p + 11,
            s10,
            "SpecialStyle"@,
            flag_text(v.special_style),
            s11,
        );
    }
    let s12 = GeneralSectionView { epilepsy_warning: v.epilepsy_warning, ..s11 };
    assert(scan_pairs::<GeneralSection>(lines, p + 12, s11) == scan_pairs::<GeneralSection>(
        lines,
        p + 13,
        s12,
    )) by {
        lemma_general_epilepsy_warning(s11, v.epilepsy_warning);
        lemma_block_line(lines, p, block, 12);
        assert(block[12] == general_lines(v)[12]);
        lemma_scan_step::<GeneralSection>(
            lines,
            p + 12,
            s11,
            "EpilepsyWarning"@,
            flag_text(v.epilepsy_warning),
            s12,
        );
    }
    let s13 = GeneralSectionView { use_skin_sprites: v.use_skin_sprites, ..s12 };
    assert(scan_pairs::<GeneralSection>(lines, p + 13, s12) == scan_pairs::<GeneralSection>(
        lines,
        p + 14,
        s13,
    )) by {
        lemma_general_use_skin_sprites(s12, v.use_skin_sprites);
        lemma_block_line(lines, p, block, 13);
        assert(block[13] == general_lines(v)[13]);
        lemma_scan_step::<GeneralSection>(
            lines,
            p + 13,
            s12,
            "UseSkinSprites"@,
            flag_text(v.use_skin_sprites),
            s13,
        );
    }
    let s14 = GeneralSectionView { countdown_offset: v.countdown_offset, ..s13 };
    assert(scan_pairs::<GeneralSection>(lines, p + 14, s13) == scan_pairs::<GeneralSection>(
        lines,
        p + 15,
        s14,
    )) by {
        lemma_general_countdown_offset(s13, v.countdown_offset);
        lemma_block_line(lines, p, block, 14);
        assert(block[14] == general_lines(v)[14]);
        lemma_scan_step::<GeneralSection>(
            lines,
            p + 14,
            s13,
            "CountdownOffset"@,
            int_text(v.countdown_offset as int),
            s14,
        );
    }
    let s15 = GeneralSectionView { skin_preference: v.skin_preference, ..s14 };
    assert(scan_pairs::<GeneralSection>(lines, p + 15, s14) == scan_pairs::<GeneralSection>(
        lines,
        p + 16,
        s15,
    )) by {
        lemma_general_skin_preference(s14, v.skin_preference);
        lemma_block_line(lines, p, block, 15);
        assert(block[15] == general_lines(v)[15]);
        lemma_scan_step::<GeneralSection>(
            lines,
            p + 15,
            s14,
            "SkinPreference"@,
            v.skin_preference,
            s15,
        );
    }
    assert(block.len() == 16);
    lemma_scan_stop::<GeneralSection>(lines, p + 16, s15);
    assert(s15 =~= v);
}

/// The lines of the general section that follow its header are read back.
pub proof fn lemma_general_scan(lines: Seq<(nat, Seq<char>)>, p: nat, v: GeneralSectionView)
    requires
        v.valid(),
        block_at(lines, p, unblank(general_lines(v))),
        pairs_stop_at(lines, p + unblank(general_lines(v)).len()),
    ensures
        scan_pairs::<GeneralSection>(lines, p + 1, default_general()) == (
            Ok::<GeneralSectionView, ErrorView>(v),
            p + unblank(general_lines(v)).len(),
        ),
{
    lemma_general_scan_all(lines, p, v);
}

/// The general section that is written is read back, up to the line that follows it.
pub proof fn lemma_general_section(
    lines: Seq<(nat, Seq<char>)>,
    p: nat,
    v: GeneralSectionView,
)
    requires
        v.valid(),
        block_at(lines, p, unblank(general_lines(v))),
        pairs_stop_at(lines, p + unblank(general_lines(v)).len()),
    ensures
        section_at(lines, p) == (
            Ok::<SectionView, ErrorView>(SectionView::General(v)),
            p + unblank(general_lines(v)).len(),
        ),
{
    reveal(section_at);
    let block = unblank(general_lines(v));
    lemma_general_lines_shape(v);
    lemma_general_keys();
    lemma_header_reads_back("General"@);
    lemma_block_line(lines, p, block, 0);
    assert(block[0] == "[General]"@);
    lemma_general_scan(lines, p, v);
}

} // verus!
