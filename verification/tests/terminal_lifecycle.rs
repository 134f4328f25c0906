//! Tests for the raw-mode lifecycle manager over the in-memory
//! capability set.

use briks::input::Input;
use briks::{Call, Event, KeyCode, KeyEvent, MockSystem, Terminal, Termios};

fn raw_terminal(mock: MockSystem) -> Terminal<MockSystem> {
    match Terminal::new_with_system(mock) {
        Ok(t) => t,
        Err(_) => panic!("terminal construction failed"),
    }
}

#[test]
fn test_terminal_initialization() {
    let mock = MockSystem::new();
    let term = raw_terminal(mock);
    let log = term.system().log();
    assert_eq!(log[0], Call::OpenTty);
    assert!(matches!(log[1], Call::EnableRaw(_)));
}

#[test]
fn test_lifecycle_and_delegation() {
    let mock = MockSystem::new();
    let mut term = raw_terminal(mock);

    let size = term.size().unwrap();
    assert_eq!(size, (80, 24));
    let written = term.write(b"foo").unwrap();
    assert_eq!(written, 3);
    let data = term.read(10).unwrap();
    assert_eq!(data, vec![]);
    let restore_error = term.close();
    assert!(restore_error.is_none());

    let log = term.system().log();
    assert_eq!(log[0], Call::OpenTty);
    assert_eq!(log[1], Call::EnableRaw(100));
    assert_eq!(log[2], Call::GetWindowSize(100));
    assert_eq!(log[3], Call::Write(100, 3));
    assert_eq!(log[4], Call::Read(100));
    assert_eq!(log[5], Call::DisableRaw(100, Termios::zeroed()));
    assert_eq!(log.len(), 6);
}

#[test]
fn test_initialization_failure_open() {
    let mut mock = MockSystem::new();
    mock.fail_open = true;

    let res = Terminal::new_with_system(mock);
    match res {
        Ok(_) => panic!("construction should fail"),
        Err(e) => {
            // A failed open makes no further capability invocation at all.
            assert_eq!(e.system.log().as_slice(), &[Call::OpenTty]);
        }
    }
}

#[test]
fn test_initialization_failure_enable_raw() {
    let mut mock = MockSystem::new();
    mock.fail_enable_raw = true;

    let res = Terminal::new_with_system(mock);
    match res {
        Ok(_) => panic!("construction should fail"),
        Err(e) => {
            // A failed enable never triggers a restore attempt.
            assert_eq!(
                e.system.log().as_slice(),
                &[Call::OpenTty, Call::EnableRaw(100)]
            );
        }
    }
}

#[test]
fn test_teardown_restores_exactly_once() {
    let mock = MockSystem::new();
    let mut term = raw_terminal(mock);

    // However many reads and writes happen in between...
    term.write(b"x").unwrap();
    term.read(8).unwrap();
    term.size().unwrap();
    term.write(b"yz").unwrap();

    // ...teardown restores exactly the configuration captured at
    // construction, exactly once, even when invoked again.
    term.close();
    term.close();
    term.close();

    let log = term.system().log();
    let restores: Vec<&Call> = log
        .iter()
        .filter(|c| matches!(c, Call::DisableRaw(_, _)))
        .collect();
    assert_eq!(restores.len(), 1);
    assert_eq!(*restores[0], Call::DisableRaw(100, Termios::zeroed()));
    assert_eq!(*log.last().unwrap(), Call::DisableRaw(100, Termios::zeroed()));
}

#[test]
fn test_input_read() {
    let mut mock = MockSystem::new();
    mock.push_input(b"a");
    let mut term = raw_terminal(mock);
    let mut input = Input::new();

    let events = input.read(&mut term);
    assert_eq!(events, vec![Event::Key(KeyEvent::new(KeyCode::Char('a')))]);

    // With the queue drained, a read yields no events, which is a normal
    // idle outcome and not a failure.
    let events = input.read(&mut term);
    assert_eq!(events, vec![]);
}
