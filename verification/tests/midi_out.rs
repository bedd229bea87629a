use bela::error::Error;
use bela::midi::{MidiChannel, MidiMessage, Note, Velocity};
use bela::midi_out::Outbox;

fn note(number: u8) -> MidiMessage {
    MidiMessage::NoteOn {
        channel: MidiChannel::min_value(),
        note: Note::new(number).unwrap(),
        velocity: Velocity::new(64).unwrap(),
    }
}

#[test]
fn a_drain_takes_the_queues_in_thread_order() {
    let mut outbox = Outbox::new(3, 4);
    let senders: Vec<_> = (0..3).map(|t| outbox.take_sender(t).expect("each thread's sender")).collect();
    senders[2].send(&mut outbox, note(2)).unwrap();
    senders[0].send(&mut outbox, note(0)).unwrap();
    senders[1].send(&mut outbox, note(1)).unwrap();

    let buffer = outbox.drain(&[]);
    assert_eq!(
        buffer,
        vec![0x90, 0, 64, 0x90, 1, 64, 0x90, 2, 64],
        "thread 0's messages, then thread 1's, then thread 2's"
    );
    assert!(outbox.drain(&[]).is_empty(), "and nothing is left");
}

#[test]
fn a_sender_is_handed_out_once() {
    let mut outbox = Outbox::new(2, 4);
    assert!(outbox.take_sender(0).is_some(), "thread 0's, once");
    assert!(outbox.take_sender(0).is_none(), "and not again: one sender is one writer");
    assert!(outbox.take_sender(1).is_some(), "thread 1 has its own");
    assert!(outbox.take_sender(2).is_none(), "and a thread that does not render has none");
}

#[test]
fn a_queue_that_could_hold_nothing_holds_one() {
    assert_eq!(Outbox::new(1, 4).capacity(), 4, "what was asked for");
    assert_eq!(
        Outbox::new(1, 0).capacity(),
        1,
        "a queue that can hold nothing is an output that can send nothing"
    );
}

#[test]
fn a_sender_queues_until_the_budget_is_spent() {
    let mut outbox = Outbox::new(1, 2);
    let sender = outbox.take_sender(0).expect("thread 0's sender");

    let first = MidiMessage::NoteOn {
        channel: MidiChannel::min_value(),
        note: Note::middle_c(),
        velocity: Velocity::max_value(),
    };
    assert_eq!(sender.send(&mut outbox, first), Ok(()));
    assert_eq!(sender.send(&mut outbox, MidiMessage::Stop), Ok(()));
    assert_eq!(
        sender.send(&mut outbox, MidiMessage::Clock),
        Err(Error::MidiQueueFull),
        "two is what this output was opened for"
    );

    assert_eq!(
        outbox.drain(&[]),
        vec![0x90, 60, 127, 0xFC],
        "both messages, in the order they were sent, and not the refused one"
    );
    assert_eq!(sender.send(&mut outbox, MidiMessage::Clock), Ok(()));
}

#[test]
fn a_queue_set_is_never_empty() {
    let outbox = Outbox::new(0, 4);
    assert_eq!(outbox.threads(), 1);
    assert_eq!(outbox.capacity(), 4, "and it is a usable queue");
}

#[test]
fn a_send_lands_behind_what_was_queued() {
    let mut outbox = Outbox::new(2, 4);
    let first = outbox.take_sender(0).unwrap();
    let second = outbox.take_sender(1).unwrap();
    first.send(&mut outbox, note(1)).unwrap();
    second.send(&mut outbox, note(2)).unwrap();

    let (tail, len) = MidiMessage::Stop.to_bytes();
    assert_eq!(
        outbox.drain(&tail[..len]),
        vec![0x90, 1, 64, 0x90, 2, 64, 0xFC],
        "both queues, then the message this call is for"
    );
}

#[test]
fn a_sender_knows_its_thread() {
    let mut outbox = Outbox::new(3, 1);
    assert_eq!(outbox.take_sender(2).map(|s| s.thread()), Some(2));
}

#[test]
fn a_flush_empties_the_queues() {
    let mut outbox = Outbox::new(1, 4);
    let sender = outbox.take_sender(0).expect("thread 0's sender");
    sender.send(&mut outbox, MidiMessage::Clock).expect("room for one");

    assert_eq!(outbox.drain(&[]), vec![0xF8]);
    assert!(outbox.drain(&[]).is_empty(), "a flush takes what the task would have");
}

#[test]
fn only_the_opening_thread_can_write() {
    let mut outbox = Outbox::new(1, 4);
    let sender = outbox.take_sender(0).expect("thread 0's sender");
    sender.send(&mut outbox, note(60)).unwrap();

    assert_eq!(outbox.send(false, MidiMessage::Stop), Err(Error::MidiThread), "send from another thread");
    assert_eq!(outbox.flush(false), Err(Error::MidiThread), "and flush");
    assert_eq!(
        outbox.send(true, MidiMessage::Stop),
        Ok(vec![0x90, 60, 64, 0xFC]),
        "the refusals took nothing; the opening thread's send takes it all, then its message"
    );
    assert_eq!(outbox.flush(true), Ok(Vec::new()), "and nothing is left");
}

#[test]
fn a_queued_message_asks_for_a_drain() {
    let mut outbox = Outbox::new(1, 1);
    let sender = outbox.take_sender(0).expect("thread 0's sender");
    assert!(!outbox.drain_asked(), "nothing has been sent");
    sender.send(&mut outbox, note(1)).unwrap();
    assert!(outbox.drain_asked(), "a queued message asks for the task");
    assert_eq!(outbox.flush(true), Ok(vec![0x90, 1, 64]));
    assert!(!outbox.drain_asked(), "and a drain answers it");
    sender.send(&mut outbox, note(2)).unwrap();
    let mut refused = Outbox::new(1, 1);
    let full = refused.take_sender(0).unwrap();
    full.send(&mut refused, note(3)).unwrap();
    refused.drain(&[]);
    full.send(&mut refused, note(4)).unwrap();
    assert_eq!(full.send(&mut refused, note(5)), Err(Error::MidiQueueFull));
    assert!(refused.drain_asked(), "the earlier send's request still stands");
}

#[test]
fn a_second_drain_takes_nothing_while_one_is_running() {
    let mut outbox = Outbox::new(1, 4);
    let sender = outbox.take_sender(0).expect("thread 0's sender");
    sender.send(&mut outbox, note(60)).unwrap();

    assert!(outbox.try_take(), "the drain is free to take");
    // What the task does when a flush already holds it.
    assert!(outbox.drain_task().is_empty());
    assert!(
        !outbox.is_empty(),
        "the message belongs to whoever holds the drain"
    );

    outbox.release();
    assert_eq!(outbox.drain_task(), vec![0x90, 60, 64]);
    assert!(outbox.is_empty(), "and is taken once it is free");
}
