// The queue of pending events: whatever was pushed comes out again, earliest
// deadline first.
use schedule_recv::{Schedule, ScheduledEvent};
use std::sync::mpsc::{channel, Sender};

fn event(sink: &Sender<()>, when: u128, tag: u64) -> ScheduledEvent {
    ScheduledEvent { when, period: Some(tag), completion_sink: sink.clone() }
}

#[test]
fn new_schedule_is_empty() {
    let mut schedule = Schedule::new();
    assert_eq!(schedule.len(), 0);
    assert!(schedule.is_empty());
    assert!(schedule.peek().is_none());
    assert!(schedule.pop().is_none());
    assert_eq!(schedule.len(), 0);
}

#[test]
fn peek_is_the_earliest_after_every_push_and_pop() {
    let (sink, _receiver) = channel();
    let deadlines: [u128; 9] = [50, 20, 70, 20, 10, 90, 30, 10, 60];
    let mut schedule = Schedule::new();
    let mut held: Vec<u128> = Vec::new();
    for (i, when) in deadlines.iter().enumerate() {
        schedule.push(event(&sink, *when, i as u64));
        held.push(*when);
        assert_eq!(schedule.len(), held.len());
        assert!(!schedule.is_empty());
        assert_eq!(schedule.peek().unwrap().when, *held.iter().min().unwrap());
    }
    let mut popped: Vec<u128> = Vec::new();
    while let Some(earliest) = schedule.pop() {
        let least = *held.iter().min().unwrap();
        assert_eq!(earliest.when, least);
        let place = held.iter().position(|when| *when == least).unwrap();
        held.remove(place);
        assert_eq!(schedule.len(), held.len());
        match schedule.peek() {
            Some(next) => assert_eq!(next.when, *held.iter().min().unwrap()),
            None => assert!(held.is_empty()),
        }
        popped.push(earliest.when);
    }
    assert_eq!(popped, vec![10, 10, 20, 20, 30, 50, 60, 70, 90]);
}

#[test]
fn pop_hands_back_the_events_that_were_pushed() {
    let (sink, _receiver) = channel();
    let mut schedule = Schedule::new();
    schedule.push(event(&sink, 300, 1));
    schedule.push(event(&sink, 100, 2));
    schedule.push(ScheduledEvent { when: 200, period: None, completion_sink: sink.clone() });
    let first = schedule.pop().unwrap();
    assert_eq!((first.when, first.period), (100, Some(2)));
    let second = schedule.pop().unwrap();
    assert_eq!((second.when, second.period), (200, None));
    let third = schedule.pop().unwrap();
    assert_eq!((third.when, third.period), (300, Some(1)));
    assert!(schedule.pop().is_none());
}

#[test]
fn equal_deadlines_all_come_out() {
    let (sink, _receiver) = channel();
    let mut schedule = Schedule::new();
    for tag in 0..5u64 {
        schedule.push(event(&sink, 7, tag));
    }
    let mut tags: Vec<u64> = Vec::new();
    while let Some(earliest) = schedule.pop() {
        assert_eq!(earliest.when, 7);
        tags.push(earliest.period.unwrap());
    }
    tags.sort();
    assert_eq!(tags, vec![0, 1, 2, 3, 4]);
}

#[test]
fn pushes_and_pops_in_turn_keep_the_order() {
    let (sink, _receiver) = channel();
    let mut schedule = Schedule::new();
    let mut held: Vec<(u128, u64)> = Vec::new();
    let mut state: u64 = 12345;
    for round in 0..2000u64 {
        state = state.wrapping_mul(6364136223846793005).wrapping_add(1442695040888963407);
        let when = ((state >> 33) % 500) as u128;
        if state % 3 == 0 {
            let least = held.iter().map(|pair| pair.0).min();
            match schedule.pop() {
                Some(earliest) => {
                    assert_eq!(Some(earliest.when), least);
                    let pair = (earliest.when, earliest.period.unwrap());
                    let place = held.iter().position(|other| *other == pair).unwrap();
                    held.remove(place);
                }
                None => assert!(held.is_empty()),
            }
        } else {
            schedule.push(event(&sink, when, round));
            held.push((when, round));
        }
        assert_eq!(schedule.len(), held.len());
        assert_eq!(schedule.peek().map(|earliest| earliest.when), held.iter().map(|pair| pair.0).min());
    }
    let mut last: u128 = 0;
    while let Some(earliest) = schedule.pop() {
        assert!(last <= earliest.when);
        last = earliest.when;
    }
}

#[test]
fn deadlines_beyond_the_clock_are_ordered_too() {
    let (sink, _receiver) = channel();
    let mut schedule = Schedule::new();
    schedule.push(event(&sink, u128::MAX, 0));
    schedule.push(event(&sink, u64::MAX as u128 + 1, 1));
    schedule.push(event(&sink, u64::MAX as u128, 2));
    assert_eq!(schedule.pop().unwrap().when, u64::MAX as u128);
    assert_eq!(schedule.pop().unwrap().when, u64::MAX as u128 + 1);
    assert_eq!(schedule.pop().unwrap().when, u128::MAX);
}
