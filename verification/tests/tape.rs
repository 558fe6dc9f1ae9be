use bevy_minibuffer::acts::{ActBuilder, ActRef};
use bevy_minibuffer::event::RunActEvent;
use bevy_minibuffer::flags::ActFlags;
use bevy_minibuffer::hotkey::{Hotkey, KeyChord};
use bevy_minibuffer::plugin::Error;
use bevy_minibuffer::tape::{
    copy_step_message, copy_tape_chord, play_step_message, play_step_sound, play_tape_chord,
    play_runs, play_tape_now, play_tape_start_sound, record_tape, record_tape_chord, record_tape_message,
    record_tape_sound, repeat_tape, CopyStep, InputText, PlayStep, RecordStart, SoundState, Tape,
    TapeRecorder, Tapes,
};
use bevy_minibuffer::universal::UniversalArg;

fn recordable(id: u64) -> RunActEvent {
    RunActEvent::new(ActRef::new(id, ActFlags::record()))
}

fn plain(id: u64) -> RunActEvent {
    RunActEvent::new(ActRef::new(id, ActFlags::active()))
}

fn ids(t: &Tape) -> Vec<u64> {
    t.content.iter().map(|e| e.act.id).collect()
}

#[test]
fn one_off_keeps_last_recordable() {
    let mut r = TapeRecorder::default();
    r.process_event(&recordable(1));
    r.process_event(&plain(2));
    r.process_event(&recordable(3));
    match &r {
        TapeRecorder::Off { one_off } => assert_eq!(ids(one_off), vec![3]),
        _ => panic!("recorder should be off"),
    }
    r.process_input(9);
    match &r {
        TapeRecorder::Off { one_off } => assert_eq!(one_off.content[0].input, Some(9)),
        _ => panic!("recorder should be off"),
    }
}

#[test]
fn recording_then_stop_keeps_tape() {
    let chord = KeyChord::new(0, 36);
    let mut r = TapeRecorder::default();
    let mut tapes = Tapes::new();
    let start = record_tape(&mut r, &mut tapes);
    assert_eq!(start, RecordStart::AskChord);
    assert_eq!(record_tape_sound(&start), SoundState::Load);
    assert_eq!(record_tape_message(&start, "Q").unwrap(), "Record tape: ");
    let (msg, sound) = record_tape_chord(&mut r, &tapes, false, Ok(chord), "Q");
    assert_eq!(msg, "Recording new tape Q");
    assert_eq!(sound, SoundState::Record);
    r.process_event(&recordable(1));
    r.process_event(&plain(2));
    r.process_event(&recordable(3));
    r.process_input(5);
    let stop = record_tape(&mut r, &mut tapes);
    assert_eq!(stop, RecordStart::Stopped(chord));
    assert_eq!(record_tape_sound(&stop), SoundState::Stop);
    assert_eq!(record_tape_message(&stop, "Q").unwrap(), "Stop recording tape Q");
    let tape = tapes.get(&chord).unwrap();
    assert_eq!(ids(tape), vec![1, 3]);
    assert_eq!(tape.content[1].input, Some(5));
    assert_eq!(tape.content[0].input, None);
    match &r {
        TapeRecorder::Off { one_off } => assert!(one_off.content.is_empty()),
        _ => panic!("recorder should be off"),
    }
}

#[test]
fn record_append_and_errors() {
    let chord = KeyChord::new(0, 36);
    let other = KeyChord::new(0, 37);
    let mut tapes = Tapes::new();
    let mut t = Tape::new();
    t.append_run(recordable(7));
    assert!(tapes.insert(chord, t).is_none());
    let mut r = TapeRecorder::default();
    let (msg, _) = record_tape_chord(&mut r, &tapes, true, Ok(chord), "Q");
    assert_eq!(msg, "Recording tape Q");
    match &r {
        TapeRecorder::Record { tape, chord: c } => {
            assert_eq!(ids(tape), vec![7]);
            assert_eq!(*c, chord);
        }
        _ => panic!("recorder should record"),
    }
    let mut r = TapeRecorder::default();
    let (msg, _) = record_tape_chord(&mut r, &tapes, true, Ok(other), "R");
    assert_eq!(msg, "No prior tape. Recording new tape R");
    let mut r = TapeRecorder::default();
    let (msg, sound) = record_tape_chord(&mut r, &tapes, false, Err(Error::Canceled), "");
    assert_eq!(msg, "canceled");
    assert_eq!(sound, SoundState::Squeak);
    assert!(matches!(r, TapeRecorder::Off { .. }));
}

#[test]
fn tapes_insert_replaces() {
    let a = KeyChord::new(0, 36);
    let b = KeyChord::new(1, 36);
    let mut tapes = Tapes::default();
    let mut t1 = Tape::new();
    t1.append_run(recordable(1));
    let mut t2 = Tape::new();
    t2.append_run(recordable(2));
    tapes.insert(a, t1);
    tapes.insert(b, t2.copy());
    let old = tapes.insert(a, t2).unwrap();
    assert_eq!(ids(&old), vec![1]);
    assert_eq!(ids(tapes.get(&a).unwrap()), vec![2]);
    assert_eq!(ids(tapes.get(&b).unwrap()), vec![2]);
    assert!(tapes.get(&KeyChord::new(0, 1)).is_none());
}

#[test]
fn play_replays_last_tape_on_own_key() {
    let q = KeyChord::new(0, 36);
    let at = KeyChord::new(4, 8);
    let mut tapes = Tapes::new();
    let mut t = Tape::new();
    t.append_run(recordable(1));
    tapes.insert(q, t);
    let play_key = Hotkey::new(vec![at]).alias(String::from("@"));
    let mut last = None;
    let step = play_tape_chord(&tapes, &mut last, Some(&play_key), Ok(at), 2);
    assert!(matches!(step, PlayStep::NoLastTape));
    assert_eq!(play_step_message(&step, "").unwrap(), "Tried to play last tape but no tape has been played.");
    assert_eq!(play_step_sound(&step), None);
    let step = play_tape_chord(&tapes, &mut last, Some(&play_key), Ok(q), 2);
    match &step {
        PlayStep::Play { chord, tape, count } => {
            assert_eq!(*chord, q);
            assert_eq!(ids(tape), vec![1]);
            assert_eq!(*count, 2);
        }
        _ => panic!("should play"),
    }
    assert_eq!(play_step_sound(&step), Some(SoundState::Play));
    assert_eq!(last, Some(q));
    let step = play_tape_chord(&tapes, &mut last, Some(&play_key), Ok(at), 1);
    assert!(matches!(step, PlayStep::Play { chord, .. } if chord == q));
    let step = play_tape_chord(&tapes, &mut last, None, Ok(at), 1);
    assert!(matches!(step, PlayStep::NoTape(c) if c == at));
    assert_eq!(play_step_message(&step, "Shift-2").unwrap(), "No tape for Shift-2");
    assert_eq!(play_step_sound(&step), Some(SoundState::Load));
    let step = play_tape_chord(&tapes, &mut last, None, Err(Error::Canceled), 1);
    assert_eq!(play_step_sound(&step), Some(SoundState::Squeak));
    assert_eq!(play_step_message(&step, "").unwrap(), "canceled");
    assert!(matches!(play_tape_now(&tapes, q), PlayStep::Play { count: 1, .. }));
    assert!(matches!(play_tape_now(&tapes, at), PlayStep::NoTape(_)));
    assert_eq!(play_tape_start_sound(SoundState::Play), None);
    assert_eq!(play_tape_start_sound(SoundState::Off), Some(SoundState::Load));
}

#[test]
fn script_of_tape() {
    let mut a = ActBuilder::new("demo::hello");
    a.flags(ActFlags::record());
    let hello = a.build(10).0;
    let b = ActBuilder::new_with_input("demo::ask", 3);
    let ask = b.build(11).0;
    let acts = vec![hello, ask];
    let ids = vec![100u64, 101];
    let mut t = Tape::new();
    t.append_run(recordable(100));
    t.append_run(recordable(101));
    t.ammend_input(4);
    t.append_run(recordable(555));
    t.append_run(recordable(101));
    t.ammend_input(5);
    let texts = vec![
        InputText::Missing,
        InputText::Text(String::from("\"Bob\"")),
        InputText::Missing,
        InputText::Failed,
    ];
    let expected = String::new()
        + "fn tape(mut commands: Commands) {\n"
        + "    commands.run_system_cached(demo::hello)\n"
        + "    commands.run_system_cached_with(demo::ask, \"Bob\")\n"
        + "    commands.run_system_cached_with(demo::ask, ???)\n"
        + "}";
    assert_eq!(t.script(&acts, &ids, &texts), expected);
    let runs = t.runs(&ids);
    assert_eq!(runs.len(), 3);
    assert_eq!(runs[1].1, 1);
}

#[test]
fn copy_tape_messages() {
    let q = KeyChord::new(0, 36);
    let mut tapes = Tapes::new();
    tapes.insert(q, Tape::new());
    let step = copy_tape_chord(&tapes, Ok(q));
    assert!(matches!(step, CopyStep::Log(c, _) if c == q));
    assert_eq!(copy_step_message(&step, "Q", "fn tape() {}"), "Log tape Q:\n\nfn tape() {}");
    let step = copy_tape_chord(&tapes, Ok(KeyChord::new(0, 20)));
    assert_eq!(copy_step_message(&step, "A", ""), "No tape for A");
    let step = copy_tape_chord(&tapes, Err(Error::Message(String::from("oops"))));
    assert_eq!(copy_step_message(&step, "", ""), "oops");
}

#[test]
fn repeat_uses_one_off_tape() {
    let mut r = TapeRecorder::default();
    r.process_event(&recordable(4));
    let (t, n) = repeat_tape(&r, &UniversalArg(Some(3))).unwrap();
    assert_eq!(ids(&t), vec![4]);
    assert_eq!(n, 3);
    let (_, n) = repeat_tape(&r, &UniversalArg(None)).unwrap();
    assert_eq!(n, 1);
    let saved = r.begin_play();
    assert!(repeat_tape(&r, &UniversalArg(None)).is_none());
    r.process_event(&recordable(5));
    assert!(matches!(r, TapeRecorder::Play));
    assert!(matches!(saved, TapeRecorder::Off { .. }));
}

#[test]
fn play_runs_repeats_and_restores_recorder() {
    let mut r = TapeRecorder::default();
    r.process_event(&recordable(1));
    let mut tape = Tape::new();
    tape.append_run(recordable(10));
    tape.append_run(recordable(99));
    tape.append_run(plain(20));
    let v = play_runs(&mut r, &tape, &[20, 10], 2);
    let got: Vec<(u64, usize)> = v.iter().map(|(e, i)| (e.act.id, *i)).collect();
    assert_eq!(got, vec![(10, 1), (20, 0), (10, 1), (20, 0)]);
    match &r {
        TapeRecorder::Off { one_off } => assert_eq!(ids(one_off), vec![1]),
        _ => panic!("recorder should be back off"),
    }
    assert!(play_runs(&mut r, &tape, &[20, 10], 0).is_empty());
}
