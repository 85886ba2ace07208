use crate::beatmap::{SectionView, section_at};
use crate::error::ErrorView;
use crate::keyed::{KeyedSection, scan_pairs};
use crate::model::{MetadataSection, MetadataSectionView};
use crate::number::int_text;
use crate::readback::joining::lacks;
use crate::readback::keys::{
    are_tags, block_at, header, is_key, is_line, lemma_block_line, lemma_entry_is_line,
    lemma_header_reads_back, lemma_key_matches_itself, lemma_keys_differ, lemma_number_is_value,
    lemma_plain_is_value, lemma_scan_step, lemma_scan_stop, lemma_tags_read_back, pairs_stop_at,
};
use crate::readback::lines::{are_lines, lemma_unblank_all, unblank};
use crate::readback::records::{is_value, lemma_number_reads_back};
use crate::sections::default_metadata;
use crate::serialize::{join, metadata_lines};
use vstd::prelude::*;

verus! {

impl MetadataSectionView {
    /// Whether the section is read back once it is written: its texts can stand as
    /// values, and each of its tags as a tag.
    pub open spec fn valid(self) -> bool {
        &&& is_value(self.title)
        &&& is_value(self.title_unicode)
        &&& is_value(self.artist)
        &&& is_value(self.artist_unicode)
        &&& is_value(self.creator)
        &&& is_value(self.version)
        &&& is_value(self.source)
        &&& (self.tags.len() > 0 ==> are_tags(self.tags))
    }
}

/// The keys of the metadata section are made of letters and digits.
proof fn lemma_metadata_keys()
    ensures
        is_key("Title"@),
        is_key("TitleUnicode"@),
        is_key("Artist"@),
        is_key("ArtistUnicode"@),
        is_key("Creator"@),
        is_key("Version"@),
        is_key("Source"@),
        is_key("Tags"@),
        is_key("BeatmapID"@),
        is_key("BeatmapSetID"@),
        is_key("Metadata"@),
        "[Metadata]"@ == header("Metadata"@),
{
    reveal_strlit("Title");
    reveal_strlit("TitleUnicode");
    reveal_strlit("Artist");
    reveal_strlit("ArtistUnicode");
    reveal_strlit("Creator");
    reveal_strlit("Version");
    reveal_strlit("Source");
    reveal_strlit("Tags");
    reveal_strlit("BeatmapID");
    reveal_strlit("BeatmapSetID");
    reveal_strlit("Metadata");
    reveal_strlit("[Metadata]");
    assert("[Metadata]"@ =~= header("Metadata"@));
}

/// What the line of `Title` stores is read back.
proof fn lemma_metadata_title(s: MetadataSectionView, x: Seq<char>)
    requires
        is_value(x),
    ensures
        is_key("Title"@),
        is_value(x),
        MetadataSection::assigned(s, "Title"@, x) == Ok::<
            MetadataSectionView,
            ErrorView,
        >(MetadataSectionView { title: x, ..s }),
{
    reveal(crate::sections::metadata_assigned);
    lemma_metadata_keys();
    reveal_strlit("Title");
    lemma_key_matches_itself("Title"@);
}

/// What the line of `TitleUnicode` stores is read back.
proof fn lemma_metadata_title_unicode(s: MetadataSectionView, x: Seq<char>)
    requires
        is_value(x),
    ensures
        is_key("TitleUnicode"@),
        is_value(x),
        MetadataSection::assigned(s, "TitleUnicode"@, x) == Ok::<
            MetadataSectionView,
            ErrorView,
        >(MetadataSectionView { title_unicode: x, ..s }),
{
    reveal(crate::sections::metadata_assigned);
    lemma_metadata_keys();
    reveal_strlit("Title");
    reveal_strlit("TitleUnicode");
    lemma_keys_differ("TitleUnicode"@, "Title"@);
    lemma_key_matches_itself("TitleUnicode"@);
}

/// What the line of `Artist` stores is read back.
proof fn lemma_metadata_artist(s: MetadataSectionView, x: Seq<char>)
    requires
        is_value(x),
    ensures
        is_key("Artist"@),
        is_value(x),
        MetadataSection::assigned(s, "Artist"@, x) == Ok::<
            MetadataSectionView,
            ErrorView,
        >(MetadataSectionView { artist: x, ..s }),
{
    reveal(crate::sections::metadata_assigned);
    lemma_metadata_keys();
    reveal_strlit("Title");
    reveal_strlit("TitleUnicode");
    reveal_strlit("Artist");
    lemma_keys_differ("Artist"@, "Title"@);
    lemma_keys_differ("Artist"@, "TitleUnicode"@);
    lemma_key_matches_itself("Artist"@);
}

/// What the line of `ArtistUnicode` stores is read back.
proof fn lemma_metadata_artist_unicode(s: MetadataSectionView, x: Seq<char>)
    requires
        is_value(x),
    ensures
        is_key("ArtistUnicode"@),
        is_value(x),
        MetadataSection::assigned(s, "ArtistUnicode"@, x) == Ok::<
            MetadataSectionView,
            ErrorView,
        >(MetadataSectionView { artist_unicode: x, ..s }),
{
    reveal(crate::sections::metadata_assigned);
    lemma_metadata_keys();
    reveal_strlit("Title");
    reveal_strlit("TitleUnicode");
    reveal_strlit("Artist");
    reveal_strlit("ArtistUnicode");
    lemma_keys_differ("ArtistUnicode"@, "Title"@);
    lemma_keys_differ("ArtistUnicode"@, "TitleUnicode"@);
    lemma_keys_differ("ArtistUnicode"@, "Artist"@);
    lemma_key_matches_itself("ArtistUnicode"@);
}

/// What the line of `Creator` stores is read back.
proof fn lemma_metadata_creator(s: MetadataSectionView, x: Seq<char>)
    requires
        is_value(x),
    ensures
        is_key("Creator"@),
        is_value(x),
        MetadataSection::assigned(s, "Creator"@, x) == Ok::<
            MetadataSectionView,
            ErrorView,
        >(MetadataSectionView { creator: x, ..s }),
{
    reveal(crate::sections::metadata_assigned);
    lemma_metadata_keys();
    reveal_strlit("Title");
    reveal_strlit("TitleUnicode");
    reveal_strlit("Artist");
    reveal_strlit("ArtistUnicode");
    reveal_strlit("Creator");
    lemma_keys_differ("Creator"@, "Title"@);
    lemma_keys_differ("Creator"@, "TitleUnicode"@);
    lemma_keys_differ("Creator"@, "Artist"@);
    lemma_keys_differ("Creator"@, "ArtistUnicode"@);
    lemma_key_matches_itself("Creator"@);
}

/// What the line of `Version` stores is read back.
proof fn lemma_metadata_version(s: MetadataSectionView, x: Seq<char>)
    requires
        is_value(x),
    ensures
        is_key("Version"@),
        is_value(x),
        MetadataSection::assigned(s, "Version"@, x) == Ok::<
            MetadataSectionView,
            ErrorView,
        >(MetadataSectionView { version: x, ..s }),
{
    reveal(crate::sections::metadata_assigned);
    lemma_metadata_keys();
    reveal_strlit("Title");
    reveal_strlit("TitleUnicode");
    reveal_strlit("Artist");
    reveal_strlit("ArtistUnicode");
    reveal_strlit("Creator");
    reveal_strlit("Version");
    lemma_keys_differ("Version"@, "Title"@);
    lemma_keys_differ("Version"@, "TitleUnicode"@);
    lemma_keys_differ("Version"@, "Artist"@);
    lemma_keys_differ("Version"@, "ArtistUnicode"@);
    lemma_keys_differ("Version"@, "Creator"@);
    lemma_key_matches_itself("Version"@);
}

/// What the line of `Source` stores is read back.
proof fn lemma_metadata_source(s: MetadataSectionView, x: Seq<char>)
    requires
        is_value(x),
    ensures
        is_key("Source"@),
        is_value(x),
        MetadataSection::assigned(s, "Source"@, x) == Ok::<
            MetadataSectionView,
            ErrorView,
        >(MetadataSectionView { source: x, ..s }),
{
    reveal(crate::sections::metadata_assigned);
    lemma_metadata_keys();
    reveal_strlit("Title");
    reveal_strlit("TitleUnicode");
    reveal_strlit("Artist");
    reveal_strlit("ArtistUnicode");
    reveal_strlit("Creator");
    reveal_strlit("Version");
    reveal_strlit("Source");
    lemma_keys_differ("Source"@, "Title"@);
    lemma_keys_differ("Source"@, "TitleUnicode"@);
    lemma_keys_differ("Source"@, "Artist"@);
    lemma_keys_differ("Source"@, "ArtistUnicode"@);
    lemma_keys_differ("Source"@, "Creator"@);
    lemma_keys_differ("Source"@, "Version"@);
    lemma_key_matches_itself("Source"@);
}

/// What the line of `Tags` stores is read back.
proof fn lemma_metadata_tags(s: MetadataSectionView, x: Seq<Seq<char>>)
    requires
        are_tags(x),
    ensures
        is_key("Tags"@),
        is_value(join(x, ' ')),
        MetadataSection::assigned(s, "Tags"@, join(x, ' ')) == Ok::<
            MetadataSectionView,
            ErrorView,
        >(MetadataSectionView { tags: x, ..s }),
{
    reveal(crate::sections::metadata_assigned);
    lemma_metadata_keys();
    reveal_strlit("Title");
    reveal_strlit("TitleUnicode");
    reveal_strlit("Artist");
    reveal_strlit("ArtistUnicode");
    reveal_strlit("Creator");
    reveal_strlit("Version");
    reveal_strlit("Source");
    reveal_strlit("Tags");
    lemma_tags_read_back(x);
    lemma_keys_differ("Tags"@, "Title"@);
    lemma_keys_differ("Tags"@, "TitleUnicode"@);
    lemma_keys_differ("Tags"@, "Artist"@);
    lemma_keys_differ("Tags"@, "ArtistUnicode"@);
    lemma_keys_differ("Tags"@, "Creator"@);
    lemma_keys_differ("Tags"@, "Version"@);
    lemma_keys_differ("Tags"@, "Source"@);
    lemma_key_matches_itself("Tags"@);
}

/// What the line of `BeatmapID` stores is read back.
proof fn lemma_metadata_beatmap_id(s: MetadataSectionView, x: i32)
    ensures
        is_key("BeatmapID"@),
        is_value(int_text(x as int)),
        MetadataSection::assigned(s, "BeatmapID"@, int_text(x as int)) == Ok::<
            MetadataSectionView,
            ErrorView,
        >(MetadataSectionView { beatmap_id: x, ..s }),
{
    reveal(crate::sections::metadata_assigned);
    lemma_metadata_keys();
    reveal_strlit("Title");
    reveal_strlit("TitleUnicode");
    reveal_strlit("Artist");
    reveal_strlit("ArtistUnicode");
    reveal_strlit("Creator");
    reveal_strlit("Version");
    reveal_strlit("Source");
    reveal_strlit("Tags");
    reveal_strlit("BeatmapID");
    lemma_number_reads_back(x);
    lemma_plain_is_value(int_text(x as int));
    lemma_keys_differ("BeatmapID"@, "Title"@);
    lemma_keys_differ("BeatmapID"@, "TitleUnicode"@);
    lemma_keys_differ("BeatmapID"@, "Artist"@);
    lemma_keys_differ("BeatmapID"@, "ArtistUnicode"@);
    lemma_keys_differ("BeatmapID"@, "Creator"@);
    lemma_keys_differ("BeatmapID"@, "Version"@);
    lemma_keys_differ("BeatmapID"@, "Source"@);
    lemma_keys_differ("BeatmapID"@, "Tags"@);
    lemma_key_matches_itself("BeatmapID"@);
}

/// What the line of `BeatmapSetID` stores is read back.
proof fn lemma_metadata_beatmap_set_id(s: MetadataSectionView, x: i32)
    ensures
        is_key("BeatmapSetID"@),
        is_value(int_text(x as int)),
        MetadataSection::assigned(s, "BeatmapSetID"@, int_text(x as int)) == Ok::<
            MetadataSectionView,
            ErrorView,
        >(MetadataSectionView { beatmap_set_id: x, ..s }),
{
    reveal(crate::sections::metadata_assigned);
    lemma_metadata_keys();
    reveal_strlit("Title");
    reveal_strlit("TitleUnicode");
    reveal_strlit("Artist");
    reveal_strlit("ArtistUnicode");
    reveal_strlit("Creator");
    reveal_strlit("Version");
    reveal_strlit("Source");
    reveal_strlit("Tags");
    reveal_strlit("BeatmapID");
    reveal_strlit("BeatmapSetID");
    lemma_number_reads_back(x);
    lemma_plain_is_value(int_text(x as int));
    lemma_keys_differ("BeatmapSetID"@, "Title"@);
    lemma_keys_differ("BeatmapSetID"@, "TitleUnicode"@);
    lemma_keys_differ("BeatmapSetID"@, "Artist"@);
    lemma_keys_differ("BeatmapSetID"@, "ArtistUnicode"@);
    lemma_keys_differ("BeatmapSetID"@, "Creator"@);
    lemma_keys_differ("BeatmapSetID"@, "Version"@);
    lemma_keys_differ("BeatmapSetID"@, "Source"@);
    lemma_keys_differ("BeatmapSetID"@, "Tags"@);
    lemma_keys_differ("BeatmapSetID"@, "BeatmapID"@);
    lemma_key_matches_itself("BeatmapSetID"@);
}

/// The lines of the metadata section can each stand on a line of its own, and those of
/// them that are not blank are the header and the lines that store something.
pub proof fn lemma_metadata_lines_shape(v: MetadataSectionView)
    requires
        v.valid(),
    ensures
        are_lines(metadata_lines(v)),
        metadata_lines(v).len() == 11,
        v.tags.len() > 0 ==> unblank(metadata_lines(v)) == metadata_lines(v),
        !(v.tags.len() > 0) ==> unblank(metadata_lines(v)) == metadata_lines(v).remove(8),
{
    let lines = metadata_lines(v);
    assert(lines.len() == 11);
    assert(is_line(lines[0])) by {
        lemma_metadata_keys();
        lemma_header_reads_back("Metadata"@);
    }
    assert(is_line(lines[1])) by {
        lemma_metadata_keys();
        lemma_entry_is_line("Title"@, v.title);
    }
    assert(is_line(lines[2])) by {
        lemma_metadata_keys();
        lemma_entry_is_line("TitleUnicode"@, v.title_unicode);
    }
    assert(is_line(lines[3])) by {
        lemma_metadata_keys();
        lemma_entry_is_line("Artist"@, v.artist);
    }
    assert(is_line(lines[4])) by {
        lemma_metadata_keys();
        lemma_entry_is_line("ArtistUnicode"@, v.artist_unicode);
    }
    assert(is_line(lines[5])) by {
        lemma_metadata_keys();
        lemma_entry_is_line("Creator"@, v.creator);
    }
    assert(is_line(lines[6])) by {
        lemma_metadata_keys();
        lemma_entry_is_line("Version"@, v.version);
    }
    assert(is_line(lines[7])) by {
        lemma_metadata_keys();
        lemma_entry_is_line("Source"@, v.source);
    }
    assert(v.tags.len() > 0 ==> is_line(lines[8])) by {
        lemma_metadata_keys();
        if v.tags.len() > 0 {
            lemma_tags_read_back(v.tags);
            lemma_entry_is_line("Tags"@, join(v.tags, ' '));
        }
    }
    assert(is_line(lines[9])) by {
        lemma_metadata_keys();
        lemma_number_is_value(v.beatmap_id);
        lemma_entry_is_line("BeatmapID"@, int_text(v.beatmap_id as int));
    }
    assert(is_line(lines[10])) by {
        lemma_metadata_keys();
        lemma_number_is_value(v.beatmap_set_id);
        lemma_entry_is_line("BeatmapSetID"@, int_text(v.beatmap_set_id as int));
    }
    assert(!(v.tags.len() > 0) ==> lines[8].len() == 0);
    assert forall|i: int| 0 <= i < lines.len() implies lacks(#[trigger] lines[i], '\n') && !(
    lines[i].len() > 0 && lines[i].last() == '\r') by {
    }
    if v.tags.len() > 0 {
        lemma_unblank_all(lines);
    } else {
        let before = lines.subrange(0, 8);
        let one = lines.subrange(8, 9);
        let after = lines.subrange(9, 11);
        assert(lines =~= before + one + after);
        assert(lines.remove(8) =~= before + after);
        assert(one =~= seq![Seq::<char>::empty()]);
        crate::readback::lines::lemma_unblank_empty_line();
        lemma_unblank_all(before);
        lemma_unblank_all(after);
        crate::readback::lines::lemma_unblank_concat(before, one);
        crate::readback::lines::lemma_unblank_concat(before + one, after);
        assert(before + Seq::<Seq<char>>::empty() =~= before);
    }
}

/// The lines of the metadata section are read back, where none of them is left out.
proof fn lemma_metadata_scan_with(lines: Seq<(nat, Seq<char>)>, p: nat, v: MetadataSectionView)
    requires
        v.valid(),
        v.tags.len() > 0,
        block_at(lines, p, unblank(metadata_lines(v))),
        pairs_stop_at(lines, p + unblank(metadata_lines(v)).len()),
    ensures
        scan_pairs::<MetadataSection>(lines, p + 1, default_metadata()) == (
            Ok::<MetadataSectionView, ErrorView>(v),
            p + unblank(metadata_lines(v)).len(),
        ),
{
    let block = unblank(metadata_lines(v));
    lemma_metadata_lines_shape(v);
    let s0 = default_metadata();
    let s1 = MetadataSectionView { title: v.title, ..s0 };
    assert(scan_pairs::<MetadataSection>(lines, p + 1, s0) == scan_pairs::<MetadataSection>(
        lines,
        p + 2,
        s1,
    )) by {
        lemma_metadata_title(s0, v.title);
        lemma_block_line(lines, p, block, 1);
        assert(block[1] == metadata_lines(v)[1]);
        lemma_scan_step::<MetadataSection>(
            lines,
            p + 1,
            s0,
            "Title"@,
            v.title,
            s1,
        );
    }
    let s2 = MetadataSectionView { title_unicode: v.title_unicode, ..s1 };
    assert(scan_pairs::<MetadataSection>(lines, p + 2, s1) == scan_pairs::<MetadataSection>(
        lines,
        p + 3,
        s2,
    )) by {
        lemma_metadata_title_unicode(s1, v.title_unicode);
        lemma_block_line(lines, p, block, 2);
        assert(block[2] == metadata_lines(v)[2]);
        lemma_scan_step::<MetadataSection>(
            lines,
            p + 2,
            s1,
            "TitleUnicode"@,
            v.title_unicode,
            s2,
        );
    }
    let s3 = MetadataSectionView { artist: v.artist, ..s2 };
    assert(scan_pairs::<MetadataSection>(lines, p + 3, s2) == scan_pairs::<MetadataSection>(
        lines,
        p + 4,
        s3,
    )) by {
        lemma_metadata_artist(s2, v.artist);
        lemma_block_line(lines, p, block, 3);
        assert(block[3] == metadata_lines(v)[3]);
        lemma_scan_step::<MetadataSection>(
            lines,
            p + 3,
            s2,
            "Artist"@,
            v.artist,
            s3,
        );
    }
    let s4 = MetadataSectionView { artist_unicode: v.artist_unicode, ..s3 };
    assert(scan_pairs::<MetadataSection>(lines, p + 4, s3) == scan_pairs::<MetadataSection>(
        lines,
        p + 5,
        s4,
    )) by {
        lemma_metadata_artist_unicode(s3, v.artist_unicode);
        lemma_block_line(lines, p, block, 4);
        assert(block[4] == metadata_lines(v)[4]);
        lemma_scan_step::<MetadataSection>(
            lines,
            p + 4,
            s3,
            "ArtistUnicode"@,
            v.artist_unicode,
            s4,
        );
    }
    let s5 = MetadataSectionView { creator: v.creator, ..s4 };
    assert(scan_pairs::<MetadataSection>(lines, p + 5, s4) == scan_pairs::<MetadataSection>(
        lines,
        p + 6,
        s5,
    )) by {
        lemma_metadata_creator(s4, v.creator);
        lemma_block_line(lines, p, block, 5);
        assert(block[5] == metadata_lines(v)[5]);
        lemma_scan_step::<MetadataSection>(
            lines,
            p + 5,
            s4,
            "Creator"@,
            v.creator,
            s5,
        );
    }
    let s6 = MetadataSectionView { version: v.version, ..s5 };
    assert(scan_pairs::<MetadataSection>(lines, p + 6, s5) == scan_pairs::<MetadataSection>(
        lines,
        p + 7,
        s6,
    )) by {
        lemma_metadata_version(s5, v.version);
        lemma_block_line(lines, p, block, 6);
        assert(block[6] == metadata_lines(v)[6]);
        lemma_scan_step::<MetadataSection>(
            lines,
            p + 6,
            s5,
            "Version"@,
            v.version,
            s6,
        );
    }
    let s7 = MetadataSectionView { source: v.source, ..s6 };
    assert(scan_pairs::<MetadataSection>(lines, p + 7, s6) == scan_pairs::<MetadataSection>(
        lines,
        p + 8,
        s7,
    )) by {
        lemma_metadata_source(s6, v.source);
        lemma_block_line(lines, p, block, 7);
        assert(block[7] == metadata_lines(v)[7]);
        lemma_scan_step::<MetadataSection>(
            lines,
            p + 7,
            s6,
            "Source"@,
            v.source,
            s7,
        );
    }
    let s8 = MetadataSectionView { tags: v.tags, ..s7 };
    assert(scan_pairs::<MetadataSection>(lines, p + 8, s7) == scan_pairs::<MetadataSection>(
        lines,
        p + 9,
        s8,
    )) by {
        lemma_metadata_tags(s7, v.tags);
        lemma_block_line(lines, p, block, 8);
        assert(block[8] == metadata_lines(v)[8]);
        lemma_scan_step::<MetadataSection>(
            lines,
            p + 8,
            s7,
            "Tags"@,
            join(v.tags, ' '),
            s8,
        );
    }
    let s9 = MetadataSectionView { beatmap_id: v.beatmap_id, ..s8 };
    assert(scan_pairs::<MetadataSection>(lines, p + 9, s8) == scan_pairs::<MetadataSection>(
        lines,
        p + 10,
        s9,
    )) by {
        lemma_metadata_beatmap_id(s8, v.beatmap_id);
        lemma_block_line(lines, p, block, 9);
        assert(block[9] == metadata_lines(v)[9]);
        lemma_scan_step::<MetadataSection>(
            lines,
            p + 9,
            s8,
            "BeatmapID"@,
            int_text(v.beatmap_id as int),
            s9,
        );
    }
    let s10 = MetadataSectionView { beatmap_set_id: v.beatmap_set_id, ..s9 };
    assert(scan_pairs::<MetadataSection>(lines, p + 10, s9) == scan_pairs::<MetadataSection>(
        lines,
        p + 11,
        s10,
    )) by {
        lemma_metadata_beatmap_set_id(s9, v.beatmap_set_id);
        lemma_block_line(lines, p, block, 10);
        assert(block[10] == metadata_lines(v)[10]);
        lemma_scan_step::<MetadataSection>(
            lines,
            p + 10,
            s9,
            "BeatmapSetID"@,
            int_text(v.beatmap_set_id as int),
            s10,
        );
    }
    assert(block.len() == 11);
    lemma_scan_stop::<MetadataSection>(lines, p + 11, s10);
    assert(s10 =~= v);
}

/// The lines of the metadata section are read back, where one of them is left out.
proof fn lemma_metadata_scan_without(lines: Seq<(nat, Seq<char>)>, p: nat, v: MetadataSectionView)
    requires
        v.valid(),
        !(v.tags.len() > 0),
        block_at(lines, p, unblank(metadata_lines(v))),
        pairs_stop_at(lines, p + unblank(metadata_lines(v)).len()),
    ensures
        scan_pairs::<MetadataSection>(lines, p + 1, default_metadata()) == (
            Ok::<MetadataSectionView, ErrorView>(v),
            p + unblank(metadata_lines(v)).len(),
        ),
{
    let block = unblank(metadata_lines(v));
    lemma_metadata_lines_shape(v);
    let s0 = default_metadata();
    let s1 = MetadataSectionView { title: v.title, ..s0 };
    assert(scan_pairs::<MetadataSection>(lines, p + 1, s0) == scan_pairs::<MetadataSection>(
        lines,
        p + 2,
        s1,
    )) by {
        lemma_metadata_title(s0, v.title);
        lemma_block_line(lines, p, block, 1);
        assert(block[1] == metadata_lines(v)[1]);
        lemma_scan_step::<MetadataSection>(
            lines,
            p + 1,
            s0,
            "Title"@,
            v.title,
            s1,
        );
    }
    let s2 = MetadataSectionView { title_unicode: v.title_unicode, ..s1 };
    assert(scan_pairs::<MetadataSection>(lines, p + 2, s1) == scan_pairs::<MetadataSection>(
        lines,
        p + 3,
        s2,
    )) by {
        lemma_metadata_title_unicode(s1, v.title_unicode);
        lemma_block_line(lines, p, block, 2);
        assert(block[2] == metadata_lines(v)[2]);
        lemma_scan_step::<MetadataSection>(
            lines,
            p + 2,
            s1,
            "TitleUnicode"@,
            v.title_unicode,
            s2,
        );
    }
    let s3 = MetadataSectionView { artist: v.artist, ..s2 };
    assert(scan_pairs::<MetadataSection>(lines, p + 3, s2) == scan_pairs::<MetadataSection>(
        lines,
        p + 4,
        s3,
    )) by {
        lemma_metadata_artist(s2, v.artist);
        lemma_block_line(lines, p, block, 3);
        assert(block[3] == metadata_lines(v)[3]);
        lemma_scan_step::<MetadataSection>(
            lines,
            p + 3,
            s2,
            "Artist"@,
            v.artist,
            s3,
        );
    }
    let s4 = MetadataSectionView { artist_unicode: v.artist_unicode, ..s3 };
    assert(scan_pairs::<MetadataSection>(lines, p + 4, s3) == scan_pairs::<MetadataSection>(
        lines,
        p + 5,
        s4,
    )) by {
        lemma_metadata_artist_unicode(s3, v.artist_unicode);
        lemma_block_line(lines, p, block, 4);
        assert(block[4] == metadata_lines(v)[4]);
        lemma_scan_step::<MetadataSection>(
            lines,
            p + 4,
            s3,
            "ArtistUnicode"@,
            v.artist_unicode,
            s4,
        );
    }
    let s5 = MetadataSectionView { creator: v.creator, ..s4 };
    assert(scan_pairs::<MetadataSection>(lines, p + 5, s4) == scan_pairs::<MetadataSection>(
        lines,
        p + 6,
        s5,
    )) by {
        lemma_metadata_creator(s4, v.creator);
        lemma_block_line(lines, p, block, 5);
        assert(block[5] == metadata_lines(v)[5]);
        lemma_scan_step::<MetadataSection>(
            lines,
            p + 5,
            s4,
            "Creator"@,
            v.creator,
            s5,
        );
    }
    let s6 = MetadataSectionView { version: v.version, ..s5 };
    assert(scan_pairs::<MetadataSection>(lines, p + 6, s5) == scan_pairs::<MetadataSection>(
        lines,
        p + 7,
        s6,
    )) by {
        lemma_metadata_version(s5, v.version);
        lemma_block_line(lines, p, block, 6);
        assert(block[6] == metadata_lines(v)[6]);
        lemma_scan_step::<MetadataSection>(
            lines,
            p + 6,
            s5,
            "Version"@,
            v.version,
            s6,
        );
    }
    let s7 = MetadataSectionView { source: v.source, ..s6 };
    assert(scan_pairs::<MetadataSection>(lines, p + 7, s6) == scan_pairs::<MetadataSection>(
        lines,
        p + 8,
        s7,
    )) by {
        lemma_metadata_source(s6, v.source);
        lemma_block_line(lines, p, block, 7);
        assert(block[7] == metadata_lines(v)[7]);
        lemma_scan_step::<MetadataSection>(
            lines,
            p + 7,
            s6,
            "Source"@,
            v.source,
            s7,
        );
    }
    let s8 = MetadataSectionView { beatmap_id: v.beatmap_id, ..s7 };
    assert(scan_pairs::<MetadataSection>(lines, p + 8, s7) == scan_pairs::<MetadataSection>(
        lines,
        p + 9,
        s8,
    )) by {
        lemma_metadata_beatmap_id(s7, v.beatmap_id);
        lemma_block_line(lines, p, block, 8);
        assert(block[8] == metadata_lines(v)[9]);
        lemma_scan_step::<MetadataSection>(
            lines,
            p + 8,
            s7,
            "BeatmapID"@,
            int_text(v.beatmap_id as int),
            s8,
        );
    }
    let s9 = MetadataSectionView { beatmap_set_id: v.beatmap_set_id, ..s8 };
    assert(scan_pairs::<MetadataSection>(lines, p + 9, s8) == scan_pairs::<MetadataSection>(
        lines,
        p + 10,
        s9,
    )) by {
        lemma_metadata_beatmap_set_id(s8, v.beatmap_set_id);
        lemma_block_line(lines, p, block, 9);
        assert(block[9] == metadata_lines(v)[10]);
        lemma_scan_step::<MetadataSection>(
            lines,
            p + 9,
            s8,
            "BeatmapSetID"@,
            int_text(v.beatmap_set_id as int),
            s9,
        );
    }
    assert(block.len() == 10);
    lemma_scan_stop::<MetadataSection>(lines, p + 10, s9);
    assert(v.tags =~= s0.tags);
    assert(s9 =~= v);
}

/// The lines of the metadata section that follow its header are read back.
pub proof fn lemma_metadata_scan(lines: Seq<(nat, Seq<char>)>, p: nat, v: MetadataSectionView)
    requires
        v.valid(),
        block_at(lines, p, unblank(metadata_lines(v))),
        pairs_stop_at(lines, p + unblank(metadata_lines(v)).len()),
    ensures
        scan_pairs::<MetadataSection>(lines, p + 1, default_metadata()) == (
            Ok::<MetadataSectionView, ErrorView>(v),
            p + unblank(metadata_lines(v)).len(),
        ),
{
    if v.tags.len() > 0 {
        lemma_metadata_scan_with(lines, p, v);
    } else {
        lemma_metadata_scan_without(lines, p, v);
    }
}

/// The metadata section that is written is read back, up to the line that follows it.
pub proof fn lemma_metadata_section(
    lines: Seq<(nat, Seq<char>)>,
    p: nat,
    v: MetadataSectionView,
)
    requires
        v.valid(),
        block_at(lines, p, unblank(metadata_lines(v))),
        pairs_stop_at(lines, p + unblank(metadata_lines(v)).len()),
    ensures
        section_at(lines, p) == (
            Ok::<SectionView, ErrorView>(SectionView::Metadata(v)),
            p + unblank(metadata_lines(v)).len(),
        ),
{
    reveal(section_at);
    let block = unblank(metadata_lines(v));
    lemma_metadata_lines_shape(v);
    lemma_metadata_keys();
    lemma_header_reads_back("Metadata"@);
    lemma_block_line(lines, p, block, 0);
    assert(block[0] == "[Metadata]"@);
    assert("Metadata"@ != "General"@) by {
        reveal_strlit("Metadata");
        reveal_strlit("General");
        assert("Metadata"@.len() != "General"@.len() || "Metadata"@[0] != "General"@[0]);
    }
    assert("Metadata"@ != "Editor"@) by {
        reveal_strlit("Metadata");
        reveal_strlit("Editor");
        assert("Metadata"@.len() != "Editor"@.len() || "Metadata"@[0] != "Editor"@[0]);
    }
    lemma_metadata_scan(lines, p, v);
}

} // verus!
