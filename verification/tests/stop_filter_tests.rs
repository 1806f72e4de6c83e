use zxrag::stopping_stream::{FilterStep, StoppingStream, StreamEvent};

fn stops(words: &[&str]) -> Vec<String> {
    words.iter().map(|w| w.to_string()).collect()
}

fn frag(s: &str) -> StreamEvent {
    StreamEvent::Fragment(s.to_string())
}

#[test]
fn unrelated_text_passes_through() {
    let mut f = StoppingStream::new(stops(&["STOP"]));
    match f.next(frag("hello")) {
        FilterStep::Emit(s) => assert_eq!(s, "hello"),
        _ => panic!("expected an emitted fragment"),
    }
    assert_eq!(f.working_buffer, "");
    assert!(!f.fused);
}

#[test]
fn full_match_ends_stream_and_discards() {
    let mut f = StoppingStream::new(stops(&["STOP"]));
    match f.next(frag("STOP and more")) {
        FilterStep::Finished => {}
        _ => panic!("expected the stream to finish"),
    }
    assert!(f.fused);
    assert_eq!(f.working_buffer, "");
}

#[test]
fn partial_prefix_is_held_then_resolved_to_stop() {
    let mut f = StoppingStream::new(stops(&["STOP"]));
    match f.next(frag("ST")) {
        FilterStep::Hold => {}
        _ => panic!("a buffer that may still become a stop word must be held"),
    }
    assert_eq!(f.working_buffer, "ST");
    match f.next(frag("OP")) {
        FilterStep::Finished => {}
        _ => panic!("the completed stop word must end the stream"),
    }
    assert!(f.fused);
}

#[test]
fn partial_prefix_is_held_then_flushed_whole() {
    let mut f = StoppingStream::new(stops(&["STOP"]));
    assert!(matches!(f.next(frag("ST")), FilterStep::Hold));
    match f.next(frag("ART")) {
        FilterStep::Emit(s) => assert_eq!(s, "START"),
        _ => panic!("a resolved non-match must flush the whole buffer"),
    }
}

#[test]
fn held_text_is_dropped_when_stop_word_completes() {
    // The all-or-nothing cutover: "STO" is held as a possible stop-word
    // start, and once the stop word completes at the head of the buffer,
    // everything held is discarded — including the trailing text.
    let mut f = StoppingStream::new(stops(&["STOP"]));
    assert!(matches!(f.next(frag("STO")), FilterStep::Hold));
    assert!(matches!(f.next(frag("P tail")), FilterStep::Finished));
    assert!(f.fused);
    assert_eq!(f.working_buffer, "");
}

#[test]
fn emitted_fragments_never_begin_a_stop_word() {
    // Arbitrary fragmentation of "abSTOPcd": whatever the split, no emitted
    // fragment starts with the stop word, and none could still grow into it:
    // no continuation can place the stop word at an emission boundary.
    for split in 1..8 {
        let text = "abSTOPcd";
        let (a, b) = text.split_at(split);
        let mut f = StoppingStream::new(stops(&["STOP"]));
        for piece in [a, b] {
            match f.next(frag(piece)) {
                FilterStep::Emit(s) => {
                    assert!(
                        !s.starts_with("STOP") && !"STOP".starts_with(s.as_str()),
                        "split at {split} emitted an unsafe fragment: {s:?}"
                    );
                }
                FilterStep::Hold => {}
                FilterStep::Finished => break,
            }
        }
    }
}

#[test]
fn fused_after_inner_end_stays_ended() {
    let mut f = StoppingStream::new(stops(&["STOP"]));
    assert!(matches!(f.next(StreamEvent::End), FilterStep::Finished));
    assert!(f.fused);
    // Fused idempotence: every further pull, whatever the event, finishes.
    assert!(matches!(f.next(frag("more")), FilterStep::Finished));
    assert!(matches!(f.next(StreamEvent::End), FilterStep::Finished));
    assert!(matches!(f.next(frag("even more")), FilterStep::Finished));
    assert!(f.fused);
}

#[test]
fn fused_after_match_stays_ended() {
    let mut f = StoppingStream::new(stops(&["X"]));
    assert!(matches!(f.next(frag("X")), FilterStep::Finished));
    assert!(matches!(f.next(frag("hello")), FilterStep::Finished));
    assert!(f.fused);
}

#[test]
fn empty_stop_set_passes_everything() {
    let mut f = StoppingStream::new(stops(&[]));
    match f.next(frag("anything at all")) {
        FilterStep::Emit(s) => assert_eq!(s, "anything at all"),
        _ => panic!("with no stop words everything flushes"),
    }
}

#[test]
fn empty_fragment_with_empty_buffer_matches_nothing() {
    // An empty buffer is a prefix of every stop word, so it is held.
    let mut f = StoppingStream::new(stops(&["STOP"]));
    assert!(matches!(f.next(frag("")), FilterStep::Hold));
    assert!(!f.fused);
}

#[test]
fn several_stop_words_any_can_end() {
    let mut f = StoppingStream::new(stops(&["</s>", "USER:"]));
    assert!(matches!(f.next(frag("US")), FilterStep::Hold));
    assert!(matches!(f.next(frag("ER: hi")), FilterStep::Finished));
    let mut g = StoppingStream::new(stops(&["</s>", "USER:"]));
    assert!(matches!(g.next(frag("</s")), FilterStep::Hold));
    assert!(matches!(g.next(frag(">")), FilterStep::Finished));
}
