use rsinit::util::{
    plan_next, plan_start, wait_for_device, DeviceWait, Error, Event, NumberError, PlanStep,
    WaitStep,
};

#[test]
fn a_device_that_is_there_ends_the_wait_at_once() {
    let mut wait = DeviceWait::new();
    assert_eq!(wait_for_device(&mut wait, true), WaitStep::Ready);
    assert_eq!(wait.failed, 0);
}

#[test]
fn the_wait_gives_up_after_the_full_time_and_not_before() {
    let mut wait = DeviceWait::new();
    let mut slept = 0;
    for look in 1..=999u32 {
        assert_eq!(
            wait_for_device(&mut wait, false),
            WaitStep::Retry { millis: 5 },
            "look {look}"
        );
        slept += 5;
        assert_eq!(wait.failed, look);
    }
    assert_eq!(wait_for_device(&mut wait, false), WaitStep::GiveUp { millis: 5 });
    slept += 5;
    assert_eq!(slept, 5000);
    assert_eq!(wait.failed, 1000);
    assert_eq!(wait_for_device(&mut wait, false), WaitStep::GiveUp { millis: 5 });
    assert_eq!(wait.failed, 1000);
}

#[test]
fn a_device_that_appears_late_is_still_found() {
    let mut wait = DeviceWait::new();
    for _ in 0..999 {
        assert_eq!(wait_for_device(&mut wait, false), WaitStep::Retry { millis: 5 });
    }
    assert_eq!(wait_for_device(&mut wait, true), WaitStep::Ready);
    assert_eq!(wait.failed, 999);
}

#[test]
fn errors_say_what_went_wrong() {
    assert_eq!(
        Error::Timeout.message(),
        "Timeout reached while waiting for the device"
    );
    assert_eq!(Error::Random.message(), "Getrandom failed");
    assert_eq!(Error::MissingGadgetRoot.message(), "Missing root= for 9p!");
    assert_eq!(
        Error::DataSectors {
            text: "12x".to_string(),
            reason: NumberError::InvalidDigit
        }
        .message(),
        "Failed to parse 'VERITY_DATA_SECTORS=12x: invalid digit found in string"
    );
    assert_eq!(
        Error::DataSectors {
            text: String::new(),
            reason: NumberError::Empty
        }
        .message(),
        "Failed to parse 'VERITY_DATA_SECTORS=: cannot parse integer from empty string"
    );
    assert_eq!(
        NumberError::Overflow.message(),
        "number too large to fit in target type"
    );
    assert_eq!(Error::failed("as it is").message(), "as it is");
    for e in [
        Error::TableTooLong,
        Error::ShortReply,
        Error::NulInArgument,
        Error::OutOfOrder,
    ] {
        assert!(!e.message().is_empty());
    }
}

#[test]
fn a_wait_that_is_given_up_ends_with_a_timeout() {
    assert_eq!(WaitStep::Ready.outcome(), Some(Ok(())));
    assert_eq!(WaitStep::Ready.pause(), 0);
    assert_eq!(WaitStep::Retry { millis: 5 }.outcome(), None);
    assert_eq!(WaitStep::Retry { millis: 5 }.pause(), 5);
    assert_eq!(WaitStep::GiveUp { millis: 5 }.outcome(), Some(Err(Error::Timeout)));
    assert_eq!(WaitStep::GiveUp { millis: 5 }.pause(), 5);

    let mut wait = DeviceWait::new();
    let mut slept = 0;
    let outcome = loop {
        let step = wait_for_device(&mut wait, false);
        slept += step.pause();
        if let Some(outcome) = step.outcome() {
            break outcome;
        }
    };
    assert_eq!(outcome, Err(Error::Timeout));
    assert_eq!(slept, 5000);
}

#[test]
fn nothing_follows_an_action_that_has_failed() {
    assert_eq!(plan_start(0), PlanStep::Report { event: Event::Done });
    assert_eq!(plan_start(3), PlanStep::Perform { index: 0 });
    assert_eq!(plan_next(3, 0, Ok(Event::Done)), PlanStep::Perform { index: 1 });
    assert_eq!(
        plan_next(3, 1, Ok(Event::Present { present: true })),
        PlanStep::Perform { index: 2 }
    );
    assert_eq!(
        plan_next(3, 2, Ok(Event::Present { present: true })),
        PlanStep::Report {
            event: Event::Present { present: true }
        }
    );
    for index in 0..3 {
        assert_eq!(
            plan_next(3, index, Err(Error::failed("broken"))),
            PlanStep::Report {
                event: Event::Failed {
                    error: Error::failed("broken")
                }
            }
        );
    }
    assert_eq!(
        plan_next(0, 0, Ok(Event::Done)),
        PlanStep::Report { event: Event::Done }
    );
    assert_eq!(
        plan_next(2, usize::MAX, Ok(Event::Done)),
        PlanStep::Report { event: Event::Done }
    );

    let outcomes = [true, true, false, true, true];
    let mut done = Vec::new();
    let mut step = plan_start(outcomes.len());
    let report = loop {
        match step {
            PlanStep::Perform { index } => {
                done.push(index);
                let outcome = if outcomes[index] {
                    Ok(Event::Done)
                } else {
                    Err(Error::failed("third"))
                };
                step = plan_next(outcomes.len(), index, outcome);
            }
            PlanStep::Report { event } => break event,
        }
    };
    assert_eq!(done, vec![0, 1, 2]);
    assert_eq!(
        report,
        Event::Failed {
            error: Error::failed("third")
        }
    );
}
