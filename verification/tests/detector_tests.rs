use easy_password::keys::keycode_to_key_class;
use easy_password::{
    handle_trigger, Config, GenerationMode, InjectionGuard, KeyClass, KeyEvent, MasterKeyCache,
    PasswordConfig, TriggerDetector, TriggerEvent,
};

fn standard_detector() -> TriggerDetector {
    TriggerDetector::new(
        vec![
            (";;setkey ".to_string(), GenerationMode::SetMasterKey),
            (";;gen".to_string(), GenerationMode::GenerateForContext),
        ],
        InjectionGuard::new(),
    )
}

fn type_chars(d: &mut TriggerDetector, text: &str) -> Vec<TriggerEvent> {
    let mut events = Vec::new();
    for c in text.chars() {
        if let Some(ev) = d.process_event(&KeyEvent::character(c)) {
            events.push(ev);
        }
    }
    events
}

#[test]
fn typing_a_trigger_fires_exactly_once() {
    let mut d = standard_detector();
    let text = ";;gen";
    let mut fired = Vec::new();
    for (i, c) in text.chars().enumerate() {
        let r = d.process_event(&KeyEvent::character(c));
        if i + 1 < text.len() {
            assert!(r.is_none(), "no event may fire before the phrase completes");
        }
        if let Some(ev) = r {
            fired.push(ev);
        }
    }
    assert_eq!(fired, vec![TriggerEvent::GenerateForContext(String::new())]);
    // The buffer was cleared: typing the tail of the phrase again must not fire.
    assert!(type_chars(&mut d, "en").is_empty());
}

#[test]
fn suppression_while_guard_held() {
    let guard = InjectionGuard::new();
    let mut d = TriggerDetector::new(
        vec![(";;gen".to_string(), GenerationMode::GenerateForContext)],
        guard.clone(),
    );
    // Type half the phrase, then hold the guard and type noise.
    assert!(type_chars(&mut d, ";;g").is_empty());
    guard.acquire();
    for c in "qwerty;;gen".chars() {
        assert!(d.process_event(&KeyEvent::character(c)).is_none());
    }
    assert!(d.process_event(&KeyEvent::return_key()).is_none());
    guard.release();
    // State is exactly as before the guard was held: "en" completes the phrase.
    let fired = type_chars(&mut d, "en");
    assert_eq!(fired, vec![TriggerEvent::GenerateForContext(String::new())]);
}

#[test]
fn process_key_with_flag_set_changes_nothing() {
    let mut d = standard_detector();
    assert!(type_chars(&mut d, ";;ge").is_empty());
    for c in ";;gen;;setkey x ".chars() {
        assert!(d.process_key(&KeyEvent::character(c), true).is_none());
    }
    let fired = type_chars(&mut d, "n");
    assert_eq!(fired, vec![TriggerEvent::GenerateForContext(String::new())]);
}

#[test]
fn autorepeat_and_modifier_chords_are_ignored() {
    let mut d = standard_detector();
    assert!(type_chars(&mut d, ";;ge").is_empty());
    let mut repeat = KeyEvent::character('x');
    repeat.autorepeat = true;
    assert!(d.process_event(&repeat).is_none());
    let mut chord = KeyEvent::character('y');
    chord.modifier_held = true;
    assert!(d.process_event(&chord).is_none());
    // Neither event disturbed the buffer.
    let fired = type_chars(&mut d, "n");
    assert_eq!(fired, vec![TriggerEvent::GenerateForContext(String::new())]);
}

#[test]
fn return_abandons_capture_without_event() {
    let mut d = standard_detector();
    assert!(type_chars(&mut d, ";;setkey ").is_empty());
    // Argument capture has begun but no argument was typed: Return abandons.
    assert!(d.process_event(&KeyEvent::return_key()).is_none());
    // Back to idle: a generate trigger still works.
    let fired = type_chars(&mut d, ";;gen");
    assert_eq!(fired, vec![TriggerEvent::GenerateForContext(String::new())]);
}

#[test]
fn return_interrupts_a_partial_phrase() {
    let mut d = standard_detector();
    assert!(type_chars(&mut d, ";;ge").is_empty());
    assert!(d.process_event(&KeyEvent::return_key()).is_none());
    // The buffer was cleared: the tail alone no longer completes the phrase.
    assert!(type_chars(&mut d, "n").is_empty());
    let fired = type_chars(&mut d, ";;gen");
    assert_eq!(fired, vec![TriggerEvent::GenerateForContext(String::new())]);
}

#[test]
fn backspace_interrupts_a_partial_phrase() {
    let mut d = standard_detector();
    assert!(type_chars(&mut d, ";;ge").is_empty());
    assert!(d.process_event(&KeyEvent::backspace()).is_none());
    assert!(type_chars(&mut d, "n").is_empty());
    let fired = type_chars(&mut d, ";;gen");
    assert_eq!(fired, vec![TriggerEvent::GenerateForContext(String::new())]);
}

#[test]
fn suffix_overlap_longer_phrase_wins() {
    let mut d = TriggerDetector::new(
        vec![
            (";;gen".to_string(), GenerationMode::GenerateForContext),
            ("gen".to_string(), GenerationMode::GenerateForContext),
        ],
        InjectionGuard::new(),
    );
    let fired = type_chars(&mut d, ";;gen");
    // Exactly one event: the longer phrase's, never both.
    assert_eq!(fired, vec![TriggerEvent::GenerateForContext(String::new())]);
    // The shorter phrase still fires on its own.
    let mut d2 = TriggerDetector::new(
        vec![
            (";;gen".to_string(), GenerationMode::GenerateForContext),
            ("gen".to_string(), GenerationMode::GenerateForContext),
        ],
        InjectionGuard::new(),
    );
    assert_eq!(type_chars(&mut d2, "xgen").len(), 1);
}

#[test]
fn rolling_buffer_forgets_old_noise() {
    let mut d = standard_detector();
    assert!(type_chars(&mut d, "the quick brown fox jumps over the lazy dog").is_empty());
    let fired = type_chars(&mut d, ";;gen");
    assert_eq!(fired, vec![TriggerEvent::GenerateForContext(String::new())]);
}

#[test]
fn setkey_scenario_updates_cache() {
    let mut d = standard_detector();
    let fired = type_chars(&mut d, ";;setkey abc123 ");
    assert_eq!(fired, vec![TriggerEvent::SetMasterKey("abc123".to_string())]);

    let mut cache = MasterKeyCache::new();
    assert!(cache.get().is_none());
    let options = PasswordConfig { length: 12, require_digit: true, require_symbol: true };
    let r = handle_trigger(&mut cache, fired.into_iter().next().unwrap(), "", &options);
    assert_eq!(r, Ok(None));
    assert_eq!(cache.get(), Some("abc123"));
}

#[test]
fn generate_scenario_end_to_end() {
    let mut cache = MasterKeyCache::new();
    cache.set("abc123".to_string());
    let options = PasswordConfig { length: 12, require_digit: true, require_symbol: true };

    let mut d = standard_detector();
    let fired = type_chars(&mut d, ";;gen");
    assert_eq!(fired.len(), 1);

    let r = handle_trigger(&mut cache, fired[0].clone(), "example.com", &options);
    let p = r.expect("generation must succeed").expect("a password must be injected");
    assert_eq!(p.chars().count(), 12);
    assert!(p.chars().any(|c| c.is_ascii_digit()));
    assert!(p.chars().any(|c| "!@#$%^&*-_=+?".contains(c)));
    // Reproducible across repeated calls.
    let again = handle_trigger(&mut cache, fired[0].clone(), "example.com", &options);
    assert_eq!(again.unwrap().unwrap(), p);
    // The cache is untouched by generation.
    assert_eq!(cache.get(), Some("abc123"));
}

#[test]
fn generate_without_master_key_fails() {
    let mut cache = MasterKeyCache::new();
    let options = PasswordConfig { length: 12, require_digit: false, require_symbol: false };
    let r = handle_trigger(
        &mut cache,
        TriggerEvent::GenerateForContext(String::new()),
        "example.com",
        &options,
    );
    assert_eq!(r, Err(easy_password::EasyPasswordError::MasterKeyNotSet));
}

#[test]
fn argument_capture_collects_until_whitespace() {
    let mut d = standard_detector();
    assert!(type_chars(&mut d, ";;setkey ").is_empty());
    assert!(type_chars(&mut d, "s3cr").is_empty());
    let fired = type_chars(&mut d, "3t ");
    assert_eq!(fired, vec![TriggerEvent::SetMasterKey("s3cr3t".to_string())]);
}

#[test]
fn argument_capture_terminated_by_return() {
    let mut d = standard_detector();
    assert!(type_chars(&mut d, ";;setkey hunter2").is_empty());
    let fired = d.process_event(&KeyEvent::return_key());
    assert_eq!(fired, Some(TriggerEvent::SetMasterKey("hunter2".to_string())));
}

#[test]
fn overlong_argument_capture_is_abandoned() {
    let mut d = standard_detector();
    assert!(type_chars(&mut d, ";;setkey ").is_empty());
    let long = "a".repeat(400);
    assert!(type_chars(&mut d, &long).is_empty());
    // The capture was abandoned once the bound was passed: no event on space.
    assert!(d.process_event(&KeyEvent::character(' ')).is_none());
    // And the detector is usable again.
    let fired = type_chars(&mut d, ";;gen");
    assert_eq!(fired, vec![TriggerEvent::GenerateForContext(String::new())]);
}

#[test]
fn cache_set_get_clear() {
    let mut cache = MasterKeyCache::new();
    assert!(!cache.is_set());
    cache.set("first".to_string());
    assert!(cache.is_set());
    assert_eq!(cache.get(), Some("first"));
    cache.set("second".to_string());
    assert_eq!(cache.get(), Some("second"));
    cache.clear();
    assert!(!cache.is_set());
    assert_eq!(cache.get(), None);
}

#[test]
fn config_validation() {
    let good = Config {
        triggers: vec![
            (";;setkey ".to_string(), GenerationMode::SetMasterKey),
            (";;gen".to_string(), GenerationMode::GenerateForContext),
        ],
        password: PasswordConfig { length: 12, require_digit: true, require_symbol: true },
    };
    assert!(good.validate().is_ok());

    let empty_table = Config {
        triggers: vec![],
        password: PasswordConfig { length: 12, require_digit: true, require_symbol: true },
    };
    assert!(matches!(
        empty_table.validate(),
        Err(easy_password::EasyPasswordError::Config(_))
    ));

    let empty_phrase = Config {
        triggers: vec![("".to_string(), GenerationMode::GenerateForContext)],
        password: PasswordConfig { length: 12, require_digit: true, require_symbol: true },
    };
    assert!(matches!(
        empty_phrase.validate(),
        Err(easy_password::EasyPasswordError::Config(_))
    ));

    let duplicate = Config {
        triggers: vec![
            (";;gen".to_string(), GenerationMode::GenerateForContext),
            (";;gen".to_string(), GenerationMode::SetMasterKey),
        ],
        password: PasswordConfig { length: 12, require_digit: true, require_symbol: true },
    };
    assert!(matches!(
        duplicate.validate(),
        Err(easy_password::EasyPasswordError::Config(_))
    ));

    let zero_length = Config {
        triggers: vec![(";;gen".to_string(), GenerationMode::GenerateForContext)],
        password: PasswordConfig { length: 0, require_digit: false, require_symbol: false },
    };
    assert!(matches!(
        zero_length.validate(),
        Err(easy_password::EasyPasswordError::Config(_))
    ));
}

#[test]
fn config_into_detector() {
    let good = Config {
        triggers: vec![
            (";;setkey ".to_string(), GenerationMode::SetMasterKey),
            (";;gen".to_string(), GenerationMode::GenerateForContext),
        ],
        password: PasswordConfig { length: 12, require_digit: true, require_symbol: true },
    };
    let mut d = good.into_detector(InjectionGuard::new()).expect("valid config");
    let fired = type_chars(&mut d, ";;gen");
    assert_eq!(fired, vec![TriggerEvent::GenerateForContext(String::new())]);

    let bad = Config {
        triggers: vec![],
        password: PasswordConfig { length: 12, require_digit: true, require_symbol: true },
    };
    assert!(bad.into_detector(InjectionGuard::new()).is_err());
}

#[test]
fn keycode_classes() {
    assert_eq!(keycode_to_key_class(36), Some(KeyClass::Return));
    assert_eq!(keycode_to_key_class(51), Some(KeyClass::Backspace));
    assert_eq!(keycode_to_key_class(0), Some(KeyClass::Other)); // a letter key
    assert_eq!(keycode_to_key_class(49), Some(KeyClass::Other)); // the space bar
    assert_eq!(keycode_to_key_class(10), None); // not part of the typeable layout
    assert_eq!(keycode_to_key_class(63), None); // a function key
}
