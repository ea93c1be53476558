use pci_config::{DriverControl, DriverEvent, DriverState, InvalidTransition};

#[test]
fn life_cycle_runs_from_init_to_detach_and_back() {
    let mut driver = DriverState::Uninitialized;
    assert_eq!(driver.state(), DriverState::Uninitialized);
    driver.init();
    assert_eq!(driver.state(), DriverState::Initialized);
    driver.attach();
    assert_eq!(driver.state(), DriverState::Attached(0));
    driver.set_sleep_level(3);
    assert_eq!(driver.state(), DriverState::Attached(3));
    driver.set_sleep_level(1);
    assert_eq!(driver.state(), DriverState::Attached(1));
    driver.attach();
    assert_eq!(driver.state(), DriverState::Attached(0));
    driver.detach();
    assert_eq!(driver.state(), DriverState::Detached);
    driver.attach();
    assert_eq!(driver.state(), DriverState::Attached(0));
    driver.destroy();
}

#[test]
fn set_state_stores_the_tag() {
    let mut driver = DriverState::Uninitialized;
    driver.set_state(DriverState::Attached(7));
    assert_eq!(driver.state(), DriverState::Attached(7));
    driver.set_state(DriverState::Destroyed);
    assert_eq!(driver.state(), DriverState::Destroyed);
}

#[test]
fn transition_follows_the_legal_edges() {
    assert_eq!(
        DriverState::Uninitialized.transition(DriverEvent::Init),
        Ok(DriverState::Initialized)
    );
    assert_eq!(
        DriverState::Initialized.transition(DriverEvent::Attach),
        Ok(DriverState::Attached(0))
    );
    assert_eq!(
        DriverState::Detached.transition(DriverEvent::Attach),
        Ok(DriverState::Attached(0))
    );
    assert_eq!(
        DriverState::Attached(4).transition(DriverEvent::Attach),
        Ok(DriverState::Attached(0))
    );
    assert_eq!(
        DriverState::Attached(4).transition(DriverEvent::SetSleepLevel(9)),
        Ok(DriverState::Attached(9))
    );
    assert_eq!(
        DriverState::Attached(4).transition(DriverEvent::Detach),
        Ok(DriverState::Detached)
    );
    assert_eq!(
        DriverState::Attached(4).transition(DriverEvent::Destroy),
        Ok(DriverState::Destroyed)
    );
}

#[test]
fn transition_refuses_everything_else() {
    let states = [
        DriverState::Uninitialized,
        DriverState::Initialized,
        DriverState::Attached(2),
        DriverState::Detached,
        DriverState::Destroyed,
    ];
    let events = [
        DriverEvent::Init,
        DriverEvent::Attach,
        DriverEvent::Detach,
        DriverEvent::SetSleepLevel(5),
        DriverEvent::Destroy,
    ];
    let mut refused = 0;
    for from in states {
        for event in events {
            let attached = matches!(from, DriverState::Attached(_));
            let legal = match event {
                DriverEvent::Init => from == DriverState::Uninitialized,
                DriverEvent::Attach => {
                    from == DriverState::Initialized || from == DriverState::Detached || attached
                }
                _ => attached,
            };
            let next = from.transition(event);
            if legal {
                assert!(next.is_ok());
            } else {
                assert_eq!(next, Err(InvalidTransition { from, event }));
                refused += 1;
            }
        }
    }
    assert_eq!(refused, 18);
}

#[test]
fn destroyed_is_terminal() {
    for event in [
        DriverEvent::Init,
        DriverEvent::Attach,
        DriverEvent::Detach,
        DriverEvent::SetSleepLevel(0),
        DriverEvent::Destroy,
    ] {
        assert_eq!(
            DriverState::Destroyed.transition(event),
            Err(InvalidTransition { from: DriverState::Destroyed, event })
        );
    }
}
