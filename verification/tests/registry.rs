use bob_bsp::registry::{ClaimError, Registry, Slot, SLOT_COUNT};

const ALL_SLOTS: [Slot; 15] = [
    Slot::Gpio0,
    Slot::Gpio1,
    Slot::Gpio2,
    Slot::Gpio3,
    Slot::Gpio4,
    Slot::Gpio26,
    Slot::Gpio27,
    Slot::Gpio28,
    Slot::Gpio29,
    Slot::BuzzerPin,
    Slot::BusData,
    Slot::BusClock,
    Slot::BusController,
    Slot::TimerSlice,
    Slot::Altimeter,
];

#[test]
fn first_acquisition_succeeds() {
    let mut registry = Registry::new();
    assert!(!registry.acquired());
    let set = registry.acquire().expect("the peripherals");
    assert!(registry.acquired());
    for slot in ALL_SLOTS {
        assert!(!set.is_taken(slot));
    }
}

#[test]
fn second_acquisition_is_refused() {
    let mut registry = Registry::new();
    let _set = registry.acquire().expect("the peripherals");
    assert_eq!(registry.acquire().err(), Some(ClaimError::AlreadyAcquired));
    assert_eq!(registry.acquire().err(), Some(ClaimError::AlreadyAcquired));
    assert!(registry.acquired());
}

#[test]
fn acquisition_stays_refused_after_the_set_is_gone() {
    let mut registry = Registry::new();
    drop(registry.acquire().expect("the peripherals"));
    assert_eq!(registry.acquire().err(), Some(ClaimError::AlreadyAcquired));
}

#[test]
fn slot_is_extracted_once() {
    let mut registry = Registry::new();
    let mut set = registry.acquire().expect("the peripherals");
    let claim = set.extract_device_slot(Slot::BusController).expect("the bus");
    assert_eq!(claim.slot(), Slot::BusController);
    assert!(set.is_taken(Slot::BusController));
    assert_eq!(set.extract_device_slot(Slot::BusController), Err(ClaimError::AlreadyTaken));
    assert!(set.is_taken(Slot::BusController));
}

#[test]
fn slot_stays_taken_after_other_extractions() {
    let mut registry = Registry::new();
    let mut set = registry.acquire().expect("the peripherals");
    set.extract_device_slot(Slot::Altimeter).expect("the altimeter");
    set.extract_device_slot(Slot::Gpio0).expect("a pin");
    set.extract_device_slot(Slot::Gpio29).expect("a pin");
    assert_eq!(set.extract_device_slot(Slot::Altimeter), Err(ClaimError::AlreadyTaken));
}

#[test]
fn extraction_leaves_other_slots() {
    let mut registry = Registry::new();
    let mut set = registry.acquire().expect("the peripherals");
    set.extract_device_slot(Slot::BuzzerPin).expect("the pin");
    for slot in ALL_SLOTS {
        assert_eq!(set.is_taken(slot), slot == Slot::BuzzerPin);
    }
}

#[test]
fn every_slot_can_be_extracted() {
    let mut registry = Registry::new();
    let mut set = registry.acquire().expect("the peripherals");
    for slot in ALL_SLOTS {
        let claim = set.extract_device_slot(slot).expect("a free slot");
        assert_eq!(claim.slot(), slot);
    }
    for slot in ALL_SLOTS {
        assert!(set.is_taken(slot));
        assert_eq!(set.extract_device_slot(slot), Err(ClaimError::AlreadyTaken));
    }
}

#[test]
fn slots_have_places_of_their_own() {
    let mut seen = [false; SLOT_COUNT];
    for slot in ALL_SLOTS {
        assert!(!seen[slot.index()]);
        seen[slot.index()] = true;
    }
    assert!(seen.iter().all(|&one| one));
}
