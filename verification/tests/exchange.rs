use isoad16a_a4::exchange::{answer, READ_CAPACITY, SETTLE_ALL_MS, SETTLE_ONE_MS};
use isoad16a_a4::{Action, Ad, Error, Event, Phase, Reading, Reply, Request};

/// A line that is not there: it records what is asked of it and answers with
/// the reply it was given.
struct Line {
    reply: Vec<u8>,
    write_fails: bool,
    read_fails: bool,
    writes: Vec<Vec<u8>>,
    waits: Vec<u64>,
    reads: Vec<usize>,
}

impl Line {
    fn answering(reply: &[u8]) -> Line {
        Line {
            reply: reply.to_vec(),
            write_fails: false,
            read_fails: false,
            writes: Vec::new(),
            waits: Vec::new(),
            reads: Vec::new(),
        }
    }

    /// Does what `action` says and reports what came of it.
    fn perform(&mut self, action: Action) -> Result<Event, Result<Reply, Error>> {
        match action {
            Action::Write(bytes) => {
                self.writes.push(bytes);
                Ok(if self.write_fails { Event::WriteFailed } else { Event::Written })
            }
            Action::Wait(millis) => {
                self.waits.push(millis);
                Ok(Event::Elapsed)
            }
            Action::Read(capacity) => {
                self.reads.push(capacity);
                if self.read_fails {
                    Ok(Event::ReadFailed)
                } else {
                    let n = self.reply.len().min(capacity);
                    Ok(Event::Received(self.reply[..n].to_vec()))
                }
            }
            Action::Done(result) => Err(result),
        }
    }

    /// Runs the exchange that begins with `first` to its end.
    fn run(&mut self, ad: &mut Ad, first: Option<Action>) -> Result<Reply, Error> {
        let mut action = first.expect("an exchange was under way");
        loop {
            match self.perform(action) {
                Ok(event) => action = ad.handle(event).expect("the event came out of turn"),
                Err(result) => return result,
            }
        }
    }
}

fn value(reading: &Reading) -> f32 {
    std::str::from_utf8(reading.as_bytes()).unwrap().parse().unwrap()
}

fn reply_of(fields: &[&str]) -> Vec<u8> {
    let mut bytes = vec![b'>'];
    for field in fields {
        bytes.extend_from_slice(field.as_bytes());
    }
    bytes.push(b'\r');
    bytes
}

#[test]
fn get_all_returns_the_sixteen_values_of_the_reply() {
    let mut fields = ["+0.0000"; 16];
    fields[0] = "+1.2345";
    fields[15] = "-9.9999";
    let reply = reply_of(&fields);
    assert_eq!(reply.len(), 114);

    let mut line = Line::answering(&reply);
    let mut ad = Ad::new(1);
    let first = ad.get_all();
    let result = line.run(&mut ad, first);

    let readings = match result {
        Ok(Reply::All(readings)) => readings,
        other => panic!("{:?}", other),
    };
    let values: Vec<f32> = readings.iter().map(value).collect();
    assert_eq!(values.len(), 16);
    assert_eq!(values[0], 1.2345);
    for v in &values[1..15] {
        assert_eq!(*v, 0.0);
    }
    assert_eq!(values[15], -9.9999);

    assert_eq!(line.writes, vec![b"#01\r".to_vec()]);
    assert_eq!(line.waits, vec![2000]);
    assert_eq!(line.reads, vec![1024]);
    assert_eq!(ad.phase(), Phase::Idle);
}

#[test]
fn get_chan_returns_the_value_of_the_reply() {
    let mut line = Line::answering(b">+12.345\r");
    let mut ad = Ad::new(7);
    let first = ad.get_chan(3);
    let result = line.run(&mut ad, first);
    match result {
        Ok(Reply::Chan(reading)) => assert_eq!(value(&reading), 12.345),
        other => panic!("{:?}", other),
    }
    assert_eq!(line.writes, vec![b"#0703\r".to_vec()]);
    assert_eq!(line.waits, vec![100]);
    assert_eq!(line.reads, vec![1024]);
    assert_eq!(ad.phase(), Phase::Idle);
}

#[test]
fn get_chan_of_channel_sixteen_writes_nothing() {
    let mut line = Line::answering(b">+12.345\r");
    let mut ad = Ad::new(1);
    let first = ad.get_chan(16);
    assert_eq!(first, Some(Action::Done(Err(Error::ChanError))));
    assert_eq!(ad.phase(), Phase::Idle);
    let result = line.run(&mut ad, first);
    assert_eq!(result, Err(Error::ChanError));
    assert_eq!(line.writes.len(), 0);
    assert_eq!(line.waits.len(), 0);
    assert_eq!(line.reads.len(), 0);
}

#[test]
fn address_above_ninety_nine_writes_nothing() {
    let mut line = Line::answering(b">+12.345\r");
    let mut ad = Ad::new(100);
    let first = ad.get_all();
    assert_eq!(line.run(&mut ad, first), Err(Error::AddrError));
    let first = ad.get_chan(0);
    assert_eq!(line.run(&mut ad, first), Err(Error::AddrError));
    let first = ad.get_chan(16);
    assert_eq!(line.run(&mut ad, first), Err(Error::ChanError));
    assert_eq!(line.writes.len(), 0);
    assert_eq!(line.reads.len(), 0);
}

#[test]
fn exchange_goes_write_wait_read_done() {
    let mut ad = Ad::new(42);
    assert_eq!(ad.addr(), 42);
    assert_eq!(ad.phase(), Phase::Idle);

    assert_eq!(ad.get_all(), Some(Action::Write(b"#42\r".to_vec())));
    assert_eq!(ad.phase(), Phase::Sending(Request::All));

    assert_eq!(ad.handle(Event::Written), Some(Action::Wait(SETTLE_ALL_MS)));
    assert_eq!(ad.phase(), Phase::Settling(Request::All));

    assert_eq!(ad.handle(Event::Elapsed), Some(Action::Read(READ_CAPACITY)));
    assert_eq!(ad.phase(), Phase::Receiving(Request::All));

    let reply = reply_of(&["+4.0000"; 16]);
    let done = ad.handle(Event::Received(reply));
    let reading = Reading::from_bytes(b"+4.0000").unwrap();
    assert_eq!(done, Some(Action::Done(Ok(Reply::All([reading; 16])))));
    assert_eq!(ad.phase(), Phase::Idle);
}

#[test]
fn settling_times_are_those_of_the_module() {
    assert_eq!(SETTLE_ALL_MS, 2000);
    assert_eq!(SETTLE_ONE_MS, 100);
    assert_eq!(READ_CAPACITY, 1024);

    let mut ad = Ad::new(1);
    ad.get_chan(15);
    assert_eq!(ad.handle(Event::Written), Some(Action::Wait(100)));
    let mut ad = Ad::new(1);
    ad.request(Request::All);
    assert_eq!(ad.handle(Event::Written), Some(Action::Wait(2000)));
}

#[test]
fn failed_write_ends_the_exchange() {
    let mut line = Line::answering(b">+12.345\r");
    line.write_fails = true;
    let mut ad = Ad::new(1);
    let first = ad.get_chan(0);
    assert_eq!(line.run(&mut ad, first), Err(Error::IoError));
    assert_eq!(line.writes.len(), 1);
    assert_eq!(line.waits.len(), 0);
    assert_eq!(line.reads.len(), 0);
    assert_eq!(ad.phase(), Phase::Idle);
}

#[test]
fn failed_read_ends_the_exchange() {
    let mut line = Line::answering(b">+12.345\r");
    line.read_fails = true;
    let mut ad = Ad::new(1);
    let first = ad.get_all();
    assert_eq!(line.run(&mut ad, first), Err(Error::IoError));
    assert_eq!(line.writes.len(), 1);
    assert_eq!(line.waits, vec![2000]);
    assert_eq!(line.reads.len(), 1);
    assert_eq!(ad.phase(), Phase::Idle);
}

#[test]
fn garbage_from_the_module_is_no_io_error() {
    let mut ad = Ad::new(1);
    let mut line = Line::answering(b"?\r");
    let first = ad.get_all();
    assert_eq!(line.run(&mut ad, first), Err(Error::ResponseError));

    let mut fields = ["+0.0000"; 16];
    fields[10] = "abcdefg";
    let mut line = Line::answering(&reply_of(&fields));
    let first = ad.get_all();
    assert_eq!(line.run(&mut ad, first), Err(Error::DecodeError));

    let mut line = Line::answering(b"");
    let first = ad.get_chan(2);
    assert_eq!(line.run(&mut ad, first), Err(Error::ResponseError));

    let mut line = Line::answering(b">  1.234\r");
    let first = ad.get_chan(2);
    assert_eq!(line.run(&mut ad, first), Err(Error::DecodeError));
}

#[test]
fn reply_to_the_other_command_is_refused() {
    let mut ad = Ad::new(1);
    let mut line = Line::answering(b">+12.345\r");
    let first = ad.get_all();
    assert_eq!(line.run(&mut ad, first), Err(Error::ResponseError));

    let mut line = Line::answering(&reply_of(&["+0.0000"; 16]));
    let first = ad.get_chan(0);
    assert_eq!(line.run(&mut ad, first), Err(Error::ResponseError));
}

#[test]
fn no_exchange_begins_while_one_is_under_way() {
    let mut ad = Ad::new(1);
    assert!(ad.get_all().is_some());
    assert_eq!(ad.get_all(), None);
    assert_eq!(ad.get_chan(0), None);
    assert_eq!(ad.get_chan(16), None);
    assert_eq!(ad.phase(), Phase::Sending(Request::All));
    ad.handle(Event::Written);
    assert_eq!(ad.request(Request::Chan(1)), None);
    ad.handle(Event::Elapsed);
    assert_eq!(ad.get_all(), None);
    assert_eq!(ad.phase(), Phase::Receiving(Request::All));
    ad.handle(Event::ReadFailed);
    assert_eq!(ad.get_chan(1), Some(Action::Write(b"#0101\r".to_vec())));
}

#[test]
fn event_out_of_turn_changes_nothing() {
    let mut ad = Ad::new(1);
    for event in [
        Event::Written,
        Event::WriteFailed,
        Event::Elapsed,
        Event::Received(b">+12.345\r".to_vec()),
        Event::ReadFailed,
    ] {
        assert_eq!(ad.handle(event), None);
        assert_eq!(ad.phase(), Phase::Idle);
    }

    ad.get_chan(4);
    let sending = Phase::Sending(Request::Chan(4));
    assert_eq!(ad.handle(Event::Elapsed), None);
    assert_eq!(ad.handle(Event::Received(Vec::new())), None);
    assert_eq!(ad.handle(Event::ReadFailed), None);
    assert_eq!(ad.phase(), sending);

    ad.handle(Event::Written);
    let settling = Phase::Settling(Request::Chan(4));
    assert_eq!(ad.handle(Event::Written), None);
    assert_eq!(ad.handle(Event::WriteFailed), None);
    assert_eq!(ad.handle(Event::Received(Vec::new())), None);
    assert_eq!(ad.handle(Event::ReadFailed), None);
    assert_eq!(ad.phase(), settling);

    ad.handle(Event::Elapsed);
    let receiving = Phase::Receiving(Request::Chan(4));
    assert_eq!(ad.handle(Event::Written), None);
    assert_eq!(ad.handle(Event::WriteFailed), None);
    assert_eq!(ad.handle(Event::Elapsed), None);
    assert_eq!(ad.phase(), receiving);
}

#[test]
fn one_codec_serves_many_exchanges() {
    let mut ad = Ad::new(5);
    for chan in 0..16u8 {
        let text = format!("+{:02}.000", chan);
        let mut reply = vec![b'>'];
        reply.extend_from_slice(text.as_bytes());
        reply.push(b'\r');
        let mut line = Line::answering(&reply);
        let first = ad.get_chan(chan);
        match line.run(&mut ad, first) {
            Ok(Reply::Chan(reading)) => assert_eq!(value(&reading), chan as f32),
            other => panic!("{:?}", other),
        }
        assert_eq!(line.writes, vec![format!("#05{:02}\r", chan).into_bytes()]);
    }
}

#[test]
fn answer_decodes_by_what_was_asked_for() {
    let one = b">+04.123\r";
    let all = reply_of(&["-1.0000"; 16]);
    match answer(Request::Chan(3), one) {
        Ok(Reply::Chan(reading)) => assert_eq!(value(&reading), 4.123),
        other => panic!("{:?}", other),
    }
    match answer(Request::All, &all) {
        Ok(Reply::All(readings)) => {
            for reading in readings.iter() {
                assert_eq!(value(reading), -1.0);
            }
        }
        other => panic!("{:?}", other),
    }
    assert_eq!(answer(Request::All, one), Err(Error::ResponseError));
    assert_eq!(answer(Request::Chan(3), &all), Err(Error::ResponseError));
    assert_eq!(answer(Request::Chan(3), b">+04,123\r"), Err(Error::DecodeError));
}

#[test]
fn a_read_that_gives_less_than_the_reply_is_refused() {
    let full = reply_of(&["+4.0000"; 16]);
    for n in [0, 1, 8, 9, 57, 113] {
        let mut ad = Ad::new(1);
        let mut line = Line::answering(&full[..n]);
        let first = ad.get_all();
        assert_eq!(line.run(&mut ad, first), Err(Error::ResponseError));
    }
}

#[test]
fn errors_are_told_apart() {
    let all = [
        Error::SerialError,
        Error::IoError,
        Error::DecodeError,
        Error::ResponseError,
        Error::StatusError,
        Error::ChanError,
        Error::AddrError,
    ];
    for (i, a) in all.iter().enumerate() {
        for (j, b) in all.iter().enumerate() {
            assert_eq!(a == b, i == j);
        }
    }
}
