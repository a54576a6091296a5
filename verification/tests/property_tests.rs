use strudel_of_lilypond::DrumEvent;
use strudel_of_lilypond::DrumHit;
use strudel_of_lilypond::DrumVoiceData;
use strudel_of_lilypond::LilyPondParser;
use strudel_of_lilypond::Note;
use strudel_of_lilypond::PitchedEvent;
use strudel_of_lilypond::Staff;
use strudel_of_lilypond::StrudelGenerator;
use strudel_of_lilypond::Tempo;

fn default_tempo() -> Tempo {
    Tempo { beat_unit: 4, bpm: 120 }
}

#[test]
fn test_bar_groups_match_bar_count() {
    // Three explicit bars give exactly three bracketed groups, in order.
    let parser = LilyPondParser::new();
    let code = r#"\tempo 4 = 120
    { c'4 | d'4 | e'4 }"#;
    let result = parser.parse(code).unwrap();
    let events = result.staves[0].events().unwrap();
    let strudel = StrudelGenerator::generate_pitched_staff(events, Some(&default_tempo()));
    assert!(strudel.contains("[c4]\n[d4]\n[e4]"));
    assert!(strudel.contains(".cpm(tempo/4/3)"));
}

#[test]
fn test_nested_repeat_bar_arithmetic() {
    // repeat 2 { repeat 3 { two bars } } counts 2*3*2 = 12 bars.
    let parser = LilyPondParser::new();
    let code = r#"\tempo 4 = 120
    { \repeat unfold 2 { \repeat unfold 3 { c'4 d'4 | e'4 f'4 } } }"#;
    let result = parser.parse(code).unwrap();
    let events = result.staves[0].events().unwrap();
    let strudel = StrudelGenerator::generate_pitched_staff(events, Some(&default_tempo()));
    assert!(strudel.contains(".cpm(tempo/4/12)"));
}

#[test]
fn test_weight_table_quarter_has_no_suffix() {
    let notes = vec![Note {
        name: 'c',
        octave: 3,
        accidental: None,
        duration: 4,
        midi: 48,
        chord_notes: None,
    }];
    let strudel = StrudelGenerator::generate(&notes, Some(&default_tempo()));
    // Exact output: one quarter note, no weight suffix, one bar.
    assert_eq!(
        strudel,
        "note(`\n[c3]`)\n  .s(\"piano\")\n  .cpm(tempo/4/1)"
    );
}

#[test]
fn test_weight_table_eighth_is_half() {
    let notes = vec![Note {
        name: 'c',
        octave: 3,
        accidental: None,
        duration: 8,
        midi: 48,
        chord_notes: None,
    }];
    let strudel = StrudelGenerator::generate(&notes, Some(&default_tempo()));
    assert!(strudel.contains("c3@0.5"));
}

#[test]
fn test_weight_table_whole_and_half() {
    let parser = LilyPondParser::new();
    let code = r#"\tempo 4 = 120
    { c1 d2 e16 }"#;
    let result = parser.parse(code).unwrap();
    let events = result.staves[0].events().unwrap();
    let strudel = StrudelGenerator::generate_pitched_staff(events, Some(&default_tempo()));
    assert!(strudel.contains("c3@4"));
    assert!(strudel.contains("d3@2"));
    assert!(strudel.contains("e3@0.25"));
}

#[test]
fn test_weight_formula_for_other_denominators() {
    // A thirty-second note weighs 4/32 = 0.125.
    let voices = vec![DrumVoiceData {
        events: vec![DrumEvent::Hit(DrumHit { name: "bd".to_string(), duration: 32 })],
        punchcard_color: None,
        gain: None,
        pan: None,
    }];
    let strudel = StrudelGenerator::generate_drum_staff(&voices, None);
    assert!(strudel.contains("bd@0.125"));
}

#[test]
fn test_whole_note_rest_renders_four_slots() {
    let parser = LilyPondParser::new();
    let code = r#"\tempo 4 = 120
    { c'4 r1 }"#;
    let result = parser.parse(code).unwrap();
    let events = result.staves[0].events().unwrap();
    let strudel = StrudelGenerator::generate_pitched_staff(events, Some(&default_tempo()));
    assert!(strudel.contains("~ ~ ~ ~"));
}

#[test]
fn test_half_note_rest_renders_two_slots() {
    let parser = LilyPondParser::new();
    let code = r#"\tempo 4 = 120
    { c'4 r2 d'4 }"#;
    let result = parser.parse(code).unwrap();
    let events = result.staves[0].events().unwrap();
    let strudel = StrudelGenerator::generate_pitched_staff(events, Some(&default_tempo()));
    assert!(strudel.contains("[c4 ~ ~ d4]"));
}

#[test]
fn test_chord_round_trip() {
    // <a c e>4 parses to representative a with partners c and e, all of
    // duration 4, and renders bracket-joined with one shared weight rule.
    let parser = LilyPondParser::new();
    let code = r#"\tempo 4 = 120
    { <a c e>4 }"#;
    let result = parser.parse(code).unwrap();
    let notes = result.notes();
    assert_eq!(notes.len(), 1);
    assert_eq!(notes[0].name, 'a');
    assert_eq!(notes[0].duration, 4);
    let partners = notes[0].chord_notes.as_ref().unwrap();
    assert_eq!(partners.len(), 2);
    assert_eq!(partners[0].name, 'c');
    assert_eq!(partners[0].duration, 4);
    assert_eq!(partners[1].name, 'e');
    assert_eq!(partners[1].duration, 4);

    let events = result.staves[0].events().unwrap();
    let strudel = StrudelGenerator::generate_pitched_staff(events, Some(&default_tempo()));
    assert!(strudel.contains("[a3,c3,e3]"));
}

#[test]
fn test_chord_shared_weight_suffix() {
    let parser = LilyPondParser::new();
    let code = r#"\tempo 4 = 120
    { <a c e>2 }"#;
    let result = parser.parse(code).unwrap();
    let events = result.staves[0].events().unwrap();
    let strudel = StrudelGenerator::generate_pitched_staff(events, Some(&default_tempo()));
    assert!(strudel.contains("[a3,c3,e3]@2"));
}

#[test]
fn test_accidental_pitch_steps() {
    // c cis d des at a fixed octave: successive pitches p, p+1, p+2, p+1.
    let parser = LilyPondParser::new();
    let code = r#"\tempo 4 = 120
    { c cis d des }"#;
    let result = parser.parse(code).unwrap();
    let notes = result.notes();
    assert_eq!(notes.len(), 4);
    let p = notes[0].midi;
    assert_eq!(notes[1].midi, p + 1);
    assert_eq!(notes[2].midi, p + 2);
    assert_eq!(notes[3].midi, p + 1);
}

#[test]
fn test_multi_voice_tempo_uses_larger_bar_count() {
    // One voice of one bar against one of two bars: the stack's tempo
    // expression divides by two.
    let voices = vec![
        DrumVoiceData {
            events: vec![DrumEvent::Hit(DrumHit { name: "bd".to_string(), duration: 4 })],
            punchcard_color: None,
            gain: None,
            pan: None,
        },
        DrumVoiceData {
            events: vec![
                DrumEvent::Hit(DrumHit { name: "hh".to_string(), duration: 4 }),
                DrumEvent::BarLine,
                DrumEvent::Hit(DrumHit { name: "hh".to_string(), duration: 4 }),
            ],
            punchcard_color: None,
            gain: None,
            pan: None,
        },
    ];
    let strudel = StrudelGenerator::generate_drum_staff(&voices, Some(&default_tempo()));
    assert!(strudel.contains("stack("));
    assert!(strudel.contains(".cpm(tempo/4/2)"));
}

#[test]
fn test_tempo_literal_digits() {
    let parser = LilyPondParser::new();
    let code = r#"\tempo 8 = 93
    { c'4 }"#;
    let result = parser.parse(code).unwrap();
    assert_eq!(result.tempo.beat_unit, 8);
    assert_eq!(result.tempo.bpm, 93);
}

#[test]
fn test_macro_self_reference_terminates() {
    // A macro referencing itself must not hang: substitution stops.
    let parser = LilyPondParser::new();
    let code = "looped = { c'4 \\looped }\n\\tempo 4 = 120\n\\score {\n  <<\n    \\new Staff { \\looped }\n  >>\n}\n";
    let result = parser.parse(code).unwrap();
    assert_eq!(result.staves.len(), 1);
    assert!(!result.notes().is_empty());
}

#[test]
fn test_no_open_brace_is_fatal() {
    let parser = LilyPondParser::new();
    let result = parser.parse("\\tempo 4 = 120");
    assert!(result.is_err());
    assert_eq!(result.unwrap_err(), "No '{' found");
}

#[test]
fn test_no_close_brace_is_fatal() {
    let parser = LilyPondParser::new();
    let result = parser.parse("\\tempo 4 = 120 {");
    assert!(result.is_err());
    assert_eq!(result.unwrap_err(), "No '}' found");
}

#[test]
fn test_braces_in_wrong_order_are_fatal() {
    // The first brace opens at the very end and never closes.
    let parser = LilyPondParser::new();
    let result = parser.parse("\\tempo 4 = 120 } x {");
    assert!(result.is_err());
    assert_eq!(result.unwrap_err(), "No '}' found");
}

#[test]
fn test_fallback_takes_first_toplevel_group_only() {
    // The single-staff fallback reads the first top-level braced group;
    // text after its matching close is not part of the staff.
    let parser = LilyPondParser::new();
    let code = r#"\tempo 4 = 120
    { c'4 } { d'4 }"#;
    let result = parser.parse(code).unwrap();
    let notes = result.notes();
    assert_eq!(notes.len(), 1);
    assert_eq!(notes[0].name, 'c');
}

#[test]
fn test_mixed_score_keeps_staff_order() {
    // A percussive staff written before a pitched one stays first.
    let parser = LilyPondParser::new();
    let code = r#"
\tempo 4 = 120
voice = { c'4 d'4 }
drums = \drummode { bd4 sn4 }

\score {
  <<
    \new DrumStaff { \drums }
    \new Staff { \voice }
  >>
}
"#;
    let result = parser.parse(code).unwrap();
    assert_eq!(result.staves.len(), 2);
    assert!(result.staves[0].drum_voices().is_some());
    assert!(result.staves[1].events().is_some());
}

#[test]
fn test_unknown_drum_names_are_skipped() {
    let parser = LilyPondParser::new();
    let code = r#"
\tempo 4 = 120
d = \drummode { bd4 zz4 sn4 }

\score {
  <<
    \new DrumStaff { \d }
  >>
}
"#;
    let result = parser.parse(code).unwrap();
    let voices = result.staves[0].drum_voices().unwrap();
    let hits: Vec<_> = voices[0]
        .events
        .iter()
        .filter_map(|e| match e {
            DrumEvent::Hit(h) => Some(h),
            _ => None,
        })
        .collect();
    assert_eq!(hits.len(), 2);
    assert_eq!(hits[0].name, "bd");
    assert_eq!(hits[1].name, "sd");
}

#[test]
fn test_empty_staves_give_placeholder() {
    let strudel = StrudelGenerator::generate_multi(&[], Some(&default_tempo()));
    assert_eq!(strudel, "// No staves to convert");
    let empty_voices: Vec<DrumVoiceData> = vec![];
    let drums = StrudelGenerator::generate_drum_staff(&empty_voices, None);
    assert_eq!(drums, "// No drum hits to convert");
    let empty_events: Vec<PitchedEvent> = vec![];
    let pitched = StrudelGenerator::generate_pitched_staff(&empty_events, None);
    assert_eq!(pitched, "// No notes to convert");
}

#[test]
fn test_octave_marks_shift_octave() {
    let parser = LilyPondParser::new();
    let code = r#"\tempo 4 = 120
    { c c' c,, }"#;
    let result = parser.parse(code).unwrap();
    let notes = result.notes();
    assert_eq!(notes[0].octave, 3);
    assert_eq!(notes[1].octave, 4);
    assert_eq!(notes[2].octave, 1);
}

#[test]
fn test_punchcard_color_modifier() {
    let parser = LilyPondParser::new();
    let code = r#"
\tempo 4 = 120
voice = { c'4 }

\score {
  <<
    \new Staff {
      % @strudel-of-lilypond@ red punchcard
      \voice
    }
  >>
}
"#;
    let result = parser.parse(code).unwrap();
    assert_eq!(result.staves[0].punchcard_color, Some("red".to_string()));
    let strudel = StrudelGenerator::generate_staff(&result.staves[0], Some(&default_tempo()));
    assert!(strudel.contains(".color(\"red\")"));
    assert!(strudel.contains("._punchcard()"));
}

#[test]
fn test_comment_directive_becomes_event() {
    let parser = LilyPondParser::new();
    let code = "\\tempo 4 = 120\n{ c'4\n% @strudel-of-lilypond@ comment kick here\nd'4 }";
    let result = parser.parse(code).unwrap();
    let events = result.staves[0].events().unwrap();
    let comments: Vec<_> = events
        .iter()
        .filter_map(|e| match e {
            PitchedEvent::Comment(t) => Some(t.clone()),
            _ => None,
        })
        .collect();
    assert_eq!(comments, vec!["kick here".to_string()]);
}

#[test]
fn test_generate_html_embeds_pattern_and_tempo() {
    let staves = vec![Staff::new_pitched(vec![PitchedEvent::Note(Note {
        name: 'c',
        octave: 4,
        accidental: None,
        duration: 4,
        midi: 60,
        chord_notes: None,
    })])];
    let tempo = default_tempo();
    let html = StrudelGenerator::generate_html(&staves, Some(&tempo), "song");
    assert!(html.contains("<title>song</title>"));
    assert!(html.contains("const tempo = 120;"));
    assert!(html.contains("$: note(`\n[c4]`)"));
    assert!(html.starts_with("<!DOCTYPE html>"));
    assert!(html.ends_with("</html>"));
}

#[test]
fn test_tab_staff_parses_like_staff() {
    let parser = LilyPondParser::new();
    let code = r#"
\tempo 4 = 120
voice = { g'4 a'4 }

\score {
  <<
    \new TabStaff { \voice }
  >>
}
"#;
    let result = parser.parse(code).unwrap();
    assert_eq!(result.staves.len(), 1);
    let notes = result.notes();
    assert_eq!(notes.len(), 2);
    assert_eq!(notes[0].name, 'g');
}

#[test]
fn test_macro_chain_resolves() {
    // A macro referencing another macro resolves through the chain.
    let parser = LilyPondParser::new();
    let code = r#"
\tempo 4 = 120
inner = { c'4 }
outer = { \inner d'4 }

\score {
  <<
    \new Staff { \outer }
  >>
}
"#;
    let result = parser.parse(code).unwrap();
    let notes = result.notes();
    assert_eq!(notes.len(), 2);
    assert_eq!(notes[0].name, 'c');
    assert_eq!(notes[1].name, 'd');
}

#[test]
fn test_drum_staff_bare_references_become_voices() {
    // A DrumStaff simultaneous block without DrumVoice blocks falls back
    // to one voice per bare percussive reference.
    let parser = LilyPondParser::new();
    let code = r#"
\tempo 4 = 120
kicks = \drummode { bd4 bd4 }
hats = \drummode { hh8 hh8 }

\score {
  <<
    \new DrumStaff {
      <<
        \kicks
        \hats
      >>
    }
  >>
}
"#;
    let result = parser.parse(code).unwrap();
    let voices = result.staves[0].drum_voices().unwrap();
    assert_eq!(voices.len(), 2);
}

#[test]
fn test_staff_with_drum_macro_is_percussive() {
    // A plain Staff whose content references a percussive macro routes to
    // the percussive parser.
    let parser = LilyPondParser::new();
    let code = r#"
\tempo 4 = 120
d = \drummode { bd4 sn4 }

\score {
  <<
    \new Staff { \d }
  >>
}
"#;
    let result = parser.parse(code).unwrap();
    assert_eq!(result.staves.len(), 1);
    assert!(result.staves[0].drum_voices().is_some());
}

#[test]
fn test_repeat_of_single_bar_has_no_duration_suffix() {
    let parser = LilyPondParser::new();
    let code = r#"\tempo 4 = 120
    { \repeat unfold 4 { c'4 } d'4 }"#;
    let result = parser.parse(code).unwrap();
    let events = result.staves[0].events().unwrap();
    let strudel = StrudelGenerator::generate_pitched_staff(events, Some(&default_tempo()));
    assert!(strudel.contains("[[c4]]!4"));
    assert!(!strudel.contains("[[c4]]!4]@"));
    assert!(strudel.contains(".cpm(tempo/4/5)"));
}

#[test]
fn test_multi_bar_repeat_carries_duration_suffix() {
    let parser = LilyPondParser::new();
    let code = r#"\tempo 4 = 120
    { \repeat unfold 2 { c'4 | d'4 } }"#;
    let result = parser.parse(code).unwrap();
    let events = result.staves[0].events().unwrap();
    let strudel = StrudelGenerator::generate_pitched_staff(events, Some(&default_tempo()));
    assert!(strudel.contains("[[[c4]\n[d4]]!2]@4"));
    assert!(strudel.contains(".cpm(tempo/4/4)"));
}

#[test]
fn test_chord_duration_digits_skip_dots() {
    // Digits after a chord bracket accumulate across dots: `4.8` reads as
    // 48 (dots and ties are consumed without altering the duration).
    let parser = LilyPondParser::new();
    let code = r#"\tempo 4 = 120
    { <a c>4.8 }"#;
    let result = parser.parse(code).unwrap();
    let notes = result.notes();
    assert_eq!(notes.len(), 1);
    assert_eq!(notes[0].duration, 48);
}

#[test]
fn test_lone_accidental_letter_is_consumed() {
    // An `i` or `e` directly after the note letter is consumed even when
    // no `s` follows, yielding no accidental.
    let parser = LilyPondParser::new();
    let code = r#"\tempo 4 = 120
    { ce4 ci8 }"#;
    let result = parser.parse(code).unwrap();
    let notes = result.notes();
    assert_eq!(notes.len(), 2);
    assert_eq!(notes[0].name, 'c');
    assert_eq!(notes[0].accidental, None);
    assert_eq!(notes[0].duration, 4);
    assert_eq!(notes[1].name, 'c');
    assert_eq!(notes[1].accidental, None);
    assert_eq!(notes[1].duration, 8);
}

#[test]
fn test_dotted_duration_marks_are_ignored() {
    // Trailing `.` and `~` are consumed without changing the duration.
    let parser = LilyPondParser::new();
    let code = r#"\tempo 4 = 120
    { c'4. d'2~ }"#;
    let result = parser.parse(code).unwrap();
    let notes = result.notes();
    assert_eq!(notes.len(), 2);
    assert_eq!(notes[0].duration, 4);
    assert_eq!(notes[1].duration, 2);
}
