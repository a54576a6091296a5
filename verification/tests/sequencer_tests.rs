use strudel_of_lilypond::sequencer::Bar;
use strudel_of_lilypond::sequencer::BarSequence;
use strudel_of_lilypond::sequencer::EBarSequence;
use strudel_of_lilypond::sequencer::NamedPattern;
use strudel_of_lilypond::sequencer::Pattern;
use strudel_of_lilypond::sequencer::SequenceItem;
use strudel_of_lilypond::sequencer::generate_voice_content;
use strudel_of_lilypond::sequencer::lilypond_bar_of_snippet;
use strudel_of_lilypond::sequencer::lilypond_of_sequence;
use strudel_of_lilypond::sequencer::strudel_of_sequence;

fn two_pattern_table() -> Vec<NamedPattern> {
    vec![
        NamedPattern {
            name: "pattern1".to_string(),
            pattern: Pattern {
                description: "kick and snare".to_string(),
                voices: vec![
                    "bd4 sn4 bd4 sn4".to_string(),
                    "hh8 hh8 hh8 hh8 hh8 hh8 hh8 hh8".to_string(),
                ],
            },
        },
        NamedPattern {
            name: "pattern2".to_string(),
            pattern: Pattern {
                description: "kick only".to_string(),
                voices: vec![
                    "bd4 r4 bd4 r4".to_string(),
                    "hh8 hh8 hh8 hh8 hh8 hh8 hh8 hh8".to_string(),
                ],
            },
        },
    ]
}

fn two_bar_sequence() -> BarSequence {
    BarSequence {
        tempo: 120,
        sequence: vec![
            SequenceItem {
                item: EBarSequence::Single(Bar { pattern_name: "pattern1".to_string() }),
                description: "kick and snare".to_string(),
            },
            SequenceItem {
                item: EBarSequence::Single(Bar { pattern_name: "pattern2".to_string() }),
                description: "kick only".to_string(),
            },
        ],
    }
}

#[test]
fn test_sequence_assembly() {
    let result = lilypond_of_sequence(&two_bar_sequence(), &two_pattern_table()).unwrap();

    assert!(result.contains(r#"\version "2.24.4""#));
    assert!(result.contains(r"\tempo 4 = 120"));
    assert!(result.contains(r"\new DrumStaff"));
    assert!(result.contains(r"\voiceOne"));
    assert!(result.contains(r"\voiceTwo"));
    assert!(result.contains("bd4 sn4 bd4 sn4"));
    assert!(result.contains("bd4 r4 bd4 r4"));
    assert!(result.contains("hh8 hh8 hh8 hh8 hh8 hh8 hh8 hh8"));
    // Comment markers before each item
    assert!(result.contains("% @strudel-of-lilypond@ comment kick and snare"));
    assert!(result.contains("% @strudel-of-lilypond@ comment kick only"));
}

#[test]
fn test_sequence_missing_pattern() {
    let table = two_pattern_table();
    let sequence = BarSequence {
        tempo: 100,
        sequence: vec![SequenceItem {
            item: EBarSequence::Single(Bar { pattern_name: "absent".to_string() }),
            description: "nothing".to_string(),
        }],
    };
    let result = lilypond_of_sequence(&sequence, &table);
    assert_eq!(result.unwrap_err(), "pattern 'absent' not found");
}

#[test]
fn test_sequence_empty_is_error() {
    let result = lilypond_of_sequence(
        &BarSequence { tempo: 90, sequence: vec![] },
        &two_pattern_table(),
    );
    assert_eq!(result.unwrap_err(), "Empty sequence");
}

#[test]
fn test_sequence_repeat_group_renders_volta() {
    let table = two_pattern_table();
    let sequence = BarSequence {
        tempo: 120,
        sequence: vec![SequenceItem {
            item: EBarSequence::RepeatGroup(
                3,
                vec![
                    EBarSequence::Single(Bar { pattern_name: "pattern1".to_string() }),
                    EBarSequence::Single(Bar { pattern_name: "pattern2".to_string() }),
                ],
            ),
            description: "looped".to_string(),
        }],
    };
    let result = lilypond_of_sequence(&sequence, &table).unwrap();
    assert!(result.contains(r"\repeat volta 3 {"));
    assert!(result.contains("bd4 sn4 bd4 sn4"));
    // Inside the repeat the two bars are separated by a bar line.
    assert!(result.contains("|"));
}

#[test]
fn test_bar_snippet_blocks() {
    let patterns = vec![Pattern {
        description: "kick".to_string(),
        voices: vec!["bd4 bd4".to_string(), " hh8 hh8 ".to_string()],
    }];
    let text = lilypond_bar_of_snippet(&patterns);
    assert_eq!(
        text,
        "<<\n  \\new DrumVoice { bd4 bd4 }\n  \\new DrumVoice { hh8 hh8 }\n>>"
    );
}

#[test]
fn test_voice_content_threads_separator() {
    let table = two_pattern_table();
    let items = vec![
        EBarSequence::Single(Bar { pattern_name: "pattern1".to_string() }),
        EBarSequence::Single(Bar { pattern_name: "pattern2".to_string() }),
    ];
    let (text, sep) = generate_voice_content(&items, &table, 0, "", None, false).unwrap();
    assert!(sep);
    assert_eq!(text, "bd4 sn4 bd4 sn4\n|\nbd4 r4 bd4 r4");
}

#[test]
fn test_strudel_of_sequence_round_trip() {
    let html = strudel_of_sequence(&two_bar_sequence(), &two_pattern_table(), "loop").unwrap();
    assert!(html.contains("<title>loop</title>"));
    assert!(html.contains("const tempo = 120;"));
    assert!(html.contains("stack("));
    assert!(html.contains("sd"));
    assert!(html.contains(".cpm(tempo/4/2)"));
}
