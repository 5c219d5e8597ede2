use dbtest_harness::bootstrap::{
    init_rocket, init_rocket_and_clean_tables, require_database_url, Action, Event, Phase,
    SetupError,
};

#[test]
fn init_rocket_happy_path() {
    let mut m = init_rocket(3);
    assert_eq!(m.next_action(), Action::AcquireLock);
    m.step(Event::LockAcquired);
    assert_eq!(m.next_action(), Action::ReadDatabaseUrl);
    m.step(Event::UrlRead { present: true });
    assert_eq!(m.next_action(), Action::BuildPool);
    m.step(Event::PoolBuilt { ok: true });
    assert_eq!(m.next_action(), Action::BuildClient { routes: 3 });
    m.step(Event::ClientBuilt { ok: true });
    assert_eq!(m.next_action(), Action::Finished);
    assert_eq!(m.phase, Phase::Ready);
}

#[test]
fn init_rocket_with_no_routes_still_reaches_a_client() {
    let mut m = init_rocket(0);
    m.step(Event::LockAcquired);
    m.step(Event::UrlRead { present: true });
    m.step(Event::PoolBuilt { ok: true });
    assert_eq!(m.next_action(), Action::BuildClient { routes: 0 });
    m.step(Event::ClientBuilt { ok: true });
    assert_eq!(m.phase, Phase::Ready);
}

#[test]
fn missing_url_aborts_before_pool_or_client() {
    let mut m = init_rocket(2);
    m.step(Event::LockAcquired);
    assert_eq!(m.next_action(), Action::ReadDatabaseUrl);
    m.step(Event::UrlRead { present: false });
    assert_eq!(m.phase, Phase::Failed { error: SetupError::MissingDatabaseUrl });
    assert_eq!(m.next_action(), Action::Aborted { error: SetupError::MissingDatabaseUrl });
    // The failed phase is final: nothing reported later revives the run.
    m.step(Event::PoolBuilt { ok: true });
    assert_eq!(m.phase, Phase::Failed { error: SetupError::MissingDatabaseUrl });
}

#[test]
fn missing_url_aborts_the_cleaning_variant_before_its_connection() {
    let mut m = init_rocket_and_clean_tables(1, 2);
    m.step(Event::LockAcquired);
    assert_eq!(m.next_action(), Action::ReadDatabaseUrl);
    m.step(Event::UrlRead { present: false });
    assert_eq!(m.next_action(), Action::Aborted { error: SetupError::MissingDatabaseUrl });
}

#[test]
fn cleaning_variant_cleans_each_table_then_builds_the_client() {
    let mut m = init_rocket_and_clean_tables(1, 2);
    m.step(Event::LockAcquired);
    assert_eq!(m.next_action(), Action::ReadDatabaseUrl);
    m.step(Event::UrlRead { present: true });
    assert_eq!(m.next_action(), Action::OpenCleanConnection);
    m.step(Event::CleanConnectionOpened { ok: true });
    assert_eq!(m.next_action(), Action::DeleteAllRows { position: 0 });
    m.step(Event::TableCleaned { ok: true });
    assert_eq!(m.next_action(), Action::DeleteAllRows { position: 1 });
    m.step(Event::TableCleaned { ok: true });
    assert_eq!(m.next_action(), Action::ReadDatabaseUrl);
    m.step(Event::UrlRead { present: true });
    assert_eq!(m.next_action(), Action::BuildPool);
    m.step(Event::PoolBuilt { ok: true });
    assert_eq!(m.next_action(), Action::BuildClient { routes: 1 });
    m.step(Event::ClientBuilt { ok: true });
    assert_eq!(m.next_action(), Action::Finished);
}

#[test]
fn cleaning_variant_with_no_tables_opens_its_connection_and_moves_on() {
    let mut m = init_rocket_and_clean_tables(0, 0);
    m.step(Event::LockAcquired);
    m.step(Event::UrlRead { present: true });
    assert_eq!(m.next_action(), Action::OpenCleanConnection);
    m.step(Event::CleanConnectionOpened { ok: true });
    assert_eq!(m.next_action(), Action::ReadDatabaseUrl);
}

#[test]
fn failed_clean_connection_aborts() {
    let mut m = init_rocket_and_clean_tables(1, 1);
    m.step(Event::LockAcquired);
    m.step(Event::UrlRead { present: true });
    m.step(Event::CleanConnectionOpened { ok: false });
    assert_eq!(m.next_action(), Action::Aborted { error: SetupError::CleanConnectionFailed });
}

#[test]
fn failed_table_clean_aborts_with_its_position() {
    let mut m = init_rocket_and_clean_tables(1, 3);
    m.step(Event::LockAcquired);
    m.step(Event::UrlRead { present: true });
    m.step(Event::CleanConnectionOpened { ok: true });
    m.step(Event::TableCleaned { ok: true });
    m.step(Event::TableCleaned { ok: false });
    assert_eq!(
        m.next_action(),
        Action::Aborted { error: SetupError::TableCleanFailed { position: 1 } }
    );
}

#[test]
fn failed_pool_aborts() {
    let mut m = init_rocket(1);
    m.step(Event::LockAcquired);
    m.step(Event::UrlRead { present: true });
    m.step(Event::PoolBuilt { ok: false });
    assert_eq!(m.next_action(), Action::Aborted { error: SetupError::PoolCreationFailed });
}

#[test]
fn failed_client_aborts() {
    let mut m = init_rocket(1);
    m.step(Event::LockAcquired);
    m.step(Event::UrlRead { present: true });
    m.step(Event::PoolBuilt { ok: true });
    m.step(Event::ClientBuilt { ok: false });
    assert_eq!(m.next_action(), Action::Aborted { error: SetupError::ClientCreationFailed });
}

#[test]
fn nothing_moves_before_the_lock_event() {
    let mut m = init_rocket(1);
    m.step(Event::UrlRead { present: true });
    m.step(Event::PoolBuilt { ok: true });
    assert_eq!(m.phase, Phase::AcquiringLock);
    assert_eq!(m.next_action(), Action::AcquireLock);
}

#[test]
fn require_database_url_hands_a_present_value_back() {
    let url = String::from("postgres://localhost/app_test");
    assert_eq!(require_database_url(Some(url.clone())), Ok(url));
}

#[test]
fn require_database_url_rejects_a_missing_value() {
    assert_eq!(require_database_url(None), Err(SetupError::MissingDatabaseUrl));
}
