use compiler_solidity::optimizer::{Details, Optimizer, SettingsSource};

#[test]
fn new_optimizer_has_default_details() {
    let optimizer = Optimizer::new(true, Some('3'));
    assert!(optimizer.enabled);
    assert_eq!(optimizer.mode, Some('3'));
    assert_eq!(optimizer.details, Some(Details::default()));
    let optimizer = Optimizer::new(false, None);
    assert!(!optimizer.enabled);
    assert_eq!(optimizer.mode, None);
    assert_eq!(optimizer.details, Some(Details::default()));
}

#[test]
fn default_details_switch_every_pass_off() {
    let details = Details::default();
    assert!(!details.peephole);
    assert_eq!(details.inliner, None);
    assert!(!details.jumpdest_remover);
    assert!(!details.order_literals);
    assert!(!details.deduplicate);
    assert!(!details.cse);
    assert!(!details.constant_optimizer);
}

#[test]
fn normalize_sets_the_details() {
    let mut optimizer = Optimizer { enabled: true, mode: Some('z'), details: None };
    optimizer.normalize();
    assert!(optimizer.enabled);
    assert_eq!(optimizer.mode, Some('z'));
    assert_eq!(optimizer.details, Some(Details::default()));

    let mut details = Details::default();
    details.peephole = true;
    details.inliner = Some(true);
    let mut optimizer = Optimizer { enabled: false, mode: None, details: Some(details) };
    optimizer.normalize();
    assert!(!optimizer.enabled);
    assert_eq!(optimizer.mode, None);
    assert_eq!(optimizer.details, Some(Details::default()));
}

#[test]
fn settings_come_from_the_mode_where_one_is_set() {
    assert_eq!(Optimizer::new(true, Some('s')).settings_source(), SettingsSource::Mode('s'));
    assert_eq!(Optimizer::new(true, None).settings_source(), SettingsSource::Cycles);
}
