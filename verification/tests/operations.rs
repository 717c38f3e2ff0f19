use character_service::{
    AddCharactersRep, AddCharactersReq, DelCharactersRep, DelCharactersReq, Error,
    ListCharactersRep, ListCharactersReq, Progress, ReadProgress, ReadStep, Service, Step,
};
use std::collections::HashMap;

/// A store in memory that can be told to fail, and that records its calls.
struct Store {
    data: HashMap<String, Vec<String>>,
    fail_get: bool,
    fail_set: bool,
    calls: Vec<String>,
}

impl Store {
    fn new() -> Store {
        Store { data: HashMap::new(), fail_get: false, fail_set: false, calls: Vec::new() }
    }

    fn with(key: &str, names: &[&str]) -> Store {
        let mut store = Store::new();
        store.data.insert(key.to_string(), strings(names));
        store
    }

    fn get(&mut self, key: &str) -> Result<Vec<String>, String> {
        self.calls.push(format!("get {}", key));
        if self.fail_get {
            Err("storage unavailable".to_string())
        } else {
            Ok(self.data.get(key).cloned().unwrap_or_default())
        }
    }

    fn set(&mut self, key: &str, names: Vec<String>) -> Result<(), String> {
        self.calls.push(format!("set {}", key));
        if self.fail_set {
            Err("write timed out".to_string())
        } else {
            self.data.insert(key.to_string(), names);
            Ok(())
        }
    }

    fn stored(&self, key: &str) -> Vec<String> {
        self.data.get(key).cloned().unwrap_or_default()
    }
}

fn strings(names: &[&str]) -> Vec<String> {
    names.iter().map(|n| n.to_string()).collect()
}

fn list_req(name: &str) -> ListCharactersReq {
    ListCharactersReq { name: name.to_string(), auth_kind: 0, auth_scope: 0 }
}

fn add_req(name: &str, names: &[&str]) -> AddCharactersReq {
    AddCharactersReq {
        name: name.to_string(),
        auth_kind: 0,
        auth_scope: 0,
        characters: strings(names),
    }
}

fn del_req(name: &str, names: &[&str]) -> DelCharactersReq {
    DelCharactersReq {
        name: name.to_string(),
        auth_kind: 0,
        auth_scope: 0,
        characters: strings(names),
    }
}

const ALICE: &str = "password/user/alice";

fn run_list(
    store: &mut Store,
    req: &ListCharactersReq,
    token: &str,
) -> Result<ListCharactersRep, Error<String>> {
    let service = Service::new();
    let mut progress = ReadProgress::Started;
    loop {
        match service.list_characters_authorized(req, token, progress) {
            ReadStep::Fetch { key } => progress = ReadProgress::Fetched(store.get(&key)),
            ReadStep::Done(rep) => return Ok(rep),
            ReadStep::Failed(e) => return Err(e),
        }
    }
}

fn run_add(
    store: &mut Store,
    req: &AddCharactersReq,
    token: &str,
) -> Result<AddCharactersRep, Error<String>> {
    let service = Service::new();
    let mut progress = Progress::Started;
    loop {
        match service.add_characters_authorized(req, token, progress) {
            Step::Fetch { key } => progress = Progress::Fetched(store.get(&key)),
            Step::Store { key, characters } => {
                progress = Progress::Stored(store.set(&key, characters))
            }
            Step::Done(rep) => return Ok(rep),
            Step::Failed(e) => return Err(e),
        }
    }
}

fn run_del(
    store: &mut Store,
    req: &DelCharactersReq,
    token: &str,
) -> Result<DelCharactersRep, Error<String>> {
    let service = Service::new();
    let mut progress = Progress::Started;
    loop {
        match service.del_characters_authorized(req, token, progress) {
            Step::Fetch { key } => progress = Progress::Fetched(store.get(&key)),
            Step::Store { key, characters } => {
                progress = Progress::Stored(store.set(&key, characters))
            }
            Step::Done(rep) => return Ok(rep),
            Step::Failed(e) => return Err(e),
        }
    }
}

#[test]
fn add_to_empty_store_sorts_and_removes_repeats() {
    let mut store = Store::new();
    let rep = run_add(&mut store, &add_req("alice", &["orc", "elf", "orc"]), "t1").unwrap();
    assert_eq!(rep, AddCharactersRep { refresh_token: "t1".to_string(), authorized: true });
    assert_eq!(store.stored(ALICE), strings(&["elf", "orc"]));
    assert_eq!(store.calls, strings(&["get password/user/alice", "set password/user/alice"]));
}

#[test]
fn delete_removes_a_stored_character() {
    let mut store = Store::with(ALICE, &["elf", "orc"]);
    let rep = run_del(&mut store, &del_req("alice", &["elf"]), "t2").unwrap();
    assert_eq!(rep, DelCharactersRep { refresh_token: "t2".to_string(), authorized: true });
    assert_eq!(store.stored(ALICE), strings(&["orc"]));
    assert_eq!(store.calls, strings(&["get password/user/alice", "set password/user/alice"]));
}

#[test]
fn delete_of_an_absent_character_changes_nothing() {
    let mut store = Store::with(ALICE, &["elf", "orc"]);
    let rep = run_del(&mut store, &del_req("alice", &["dwarf"]), "t3").unwrap();
    assert!(rep.authorized);
    assert_eq!(store.stored(ALICE), strings(&["elf", "orc"]));
}

#[test]
fn list_of_an_unknown_account_is_empty_and_authorized() {
    let mut store = Store::new();
    let rep = run_list(&mut store, &list_req("nobody"), "t4").unwrap();
    assert_eq!(
        rep,
        ListCharactersRep {
            characters: Vec::new(),
            refresh_token: "t4".to_string(),
            authorized: true
        }
    );
    assert_eq!(store.calls, strings(&["get password/user/nobody"]));
}

#[test]
fn list_returns_the_store_error_not_an_empty_list() {
    let mut store = Store::with(ALICE, &["elf"]);
    store.fail_get = true;
    let got = run_list(&mut store, &list_req("alice"), "t5");
    assert_eq!(got, Err(Error::AccessorFailure("storage unavailable".to_string())));
}

#[test]
fn list_returns_what_is_stored_as_it_is() {
    let mut store = Store::with(ALICE, &["orc", "elf", "orc"]);
    let rep = run_list(&mut store, &list_req("alice"), "t6").unwrap();
    assert_eq!(rep.characters, strings(&["orc", "elf", "orc"]));
    assert_eq!(rep.refresh_token, "t6");
    assert!(rep.authorized);
}

#[test]
fn add_twice_is_add_once() {
    let mut once = Store::with(ALICE, &["troll"]);
    run_add(&mut once, &add_req("alice", &["orc", "elf"]), "a").unwrap();
    let mut twice = Store::with(ALICE, &["troll"]);
    run_add(&mut twice, &add_req("alice", &["orc", "elf"]), "a").unwrap();
    run_add(&mut twice, &add_req("alice", &["orc", "elf"]), "b").unwrap();
    assert_eq!(once.stored(ALICE), strings(&["elf", "orc", "troll"]));
    assert_eq!(twice.stored(ALICE), once.stored(ALICE));
}

#[test]
fn adds_with_repeats_keep_each_name_once_in_order() {
    let mut store = Store::new();
    run_add(&mut store, &add_req("alice", &["orc", "orc", "elf"]), "a").unwrap();
    run_add(&mut store, &add_req("alice", &["elf", "dwarf", "orc", "dwarf"]), "b").unwrap();
    run_add(&mut store, &add_req("alice", &[]), "c").unwrap();
    assert_eq!(store.stored(ALICE), strings(&["dwarf", "elf", "orc"]));
}

#[test]
fn add_normalizes_what_the_store_held() {
    let mut store = Store::with(ALICE, &["orc", "elf", "orc"]);
    run_add(&mut store, &add_req("alice", &[]), "a").unwrap();
    assert_eq!(store.stored(ALICE), strings(&["elf", "orc"]));
}

#[test]
fn delete_keeps_the_order_and_takes_every_copy() {
    let mut store = Store::with(ALICE, &["orc", "elf", "orc", "troll"]);
    run_del(&mut store, &del_req("alice", &["orc", "ghost", "orc"]), "a").unwrap();
    assert_eq!(store.stored(ALICE), strings(&["elf", "troll"]));
}

#[test]
fn delete_of_everything_leaves_an_empty_list() {
    let mut store = Store::with(ALICE, &["elf", "orc"]);
    run_del(&mut store, &del_req("alice", &["orc", "elf"]), "a").unwrap();
    assert_eq!(store.stored(ALICE), Vec::<String>::new());
}

#[test]
fn accounts_are_kept_apart() {
    let mut store = Store::with(ALICE, &["elf"]);
    run_add(&mut store, &add_req("bob", &["orc"]), "a").unwrap();
    let mut other = add_req("alice", &["troll"]);
    other.auth_kind = 1;
    run_add(&mut store, &other, "b").unwrap();
    assert_eq!(store.stored(ALICE), strings(&["elf"]));
    assert_eq!(store.stored("password/user/bob"), strings(&["orc"]));
    assert_eq!(store.stored("token/user/alice"), strings(&["troll"]));
}

#[test]
fn add_stops_at_a_failed_read_and_writes_nothing() {
    let mut store = Store::with(ALICE, &["elf"]);
    store.fail_get = true;
    let got = run_add(&mut store, &add_req("alice", &["orc"]), "a");
    assert_eq!(got, Err(Error::AccessorFailure("storage unavailable".to_string())));
    assert_eq!(store.calls, strings(&["get password/user/alice"]));
    assert_eq!(store.stored(ALICE), strings(&["elf"]));
}

#[test]
fn add_returns_the_error_of_a_failed_write() {
    let mut store = Store::with(ALICE, &["elf"]);
    store.fail_set = true;
    let got = run_add(&mut store, &add_req("alice", &["orc"]), "a");
    assert_eq!(got, Err(Error::AccessorFailure("write timed out".to_string())));
    assert_eq!(store.calls, strings(&["get password/user/alice", "set password/user/alice"]));
}

#[test]
fn delete_stops_at_a_failed_read_and_writes_nothing() {
    let mut store = Store::with(ALICE, &["elf"]);
    store.fail_get = true;
    let got = run_del(&mut store, &del_req("alice", &["elf"]), "a");
    assert_eq!(got, Err(Error::AccessorFailure("storage unavailable".to_string())));
    assert_eq!(store.calls, strings(&["get password/user/alice"]));
}

#[test]
fn delete_returns_the_error_of_a_failed_write() {
    let mut store = Store::with(ALICE, &["elf"]);
    store.fail_set = true;
    let got = run_del(&mut store, &del_req("alice", &["elf"]), "a");
    assert_eq!(got, Err(Error::AccessorFailure("write timed out".to_string())));
}

#[test]
fn unknown_auth_codes_fail_before_the_store_is_touched() {
    let mut store = Store::new();
    let mut list = list_req("alice");
    list.auth_kind = 7;
    assert_eq!(run_list(&mut store, &list, "a"), Err(Error::InvalidAuthEncoding));
    let mut add = add_req("alice", &["orc"]);
    add.auth_scope = -1;
    assert_eq!(run_add(&mut store, &add, "a"), Err(Error::InvalidAuthEncoding));
    let mut del = del_req("alice", &["orc"]);
    del.auth_kind = 2;
    del.auth_scope = 2;
    assert_eq!(run_del(&mut store, &del, "a"), Err(Error::InvalidAuthEncoding));
    assert!(store.calls.is_empty());
}

#[test]
fn unknown_auth_codes_fail_at_every_step() {
    let service = Service::new();
    let mut add = add_req("alice", &["orc"]);
    add.auth_kind = 9;
    let fetched: Progress<String> = Progress::Fetched(Ok(strings(&["elf"])));
    assert_eq!(
        service.add_characters_authorized(&add, "a", fetched),
        Step::Failed(Error::InvalidAuthEncoding)
    );
    let stored: Progress<String> = Progress::Stored(Ok(()));
    assert_eq!(
        service.add_characters_authorized(&add, "a", stored),
        Step::Failed(Error::InvalidAuthEncoding)
    );
}

#[test]
fn each_step_of_an_add() {
    let service = Service::new();
    let req = add_req("alice", &["orc", "elf", "orc"]);
    let started: Progress<String> = Progress::Started;
    assert_eq!(
        service.add_characters_authorized(&req, "tok", started),
        Step::Fetch { key: ALICE.to_string() }
    );
    let fetched: Progress<String> = Progress::Fetched(Ok(strings(&["troll", "elf"])));
    assert_eq!(
        service.add_characters_authorized(&req, "tok", fetched),
        Step::Store { key: ALICE.to_string(), characters: strings(&["elf", "orc", "troll"]) }
    );
    let stored: Progress<String> = Progress::Stored(Ok(()));
    assert_eq!(
        service.add_characters_authorized(&req, "tok", stored),
        Step::Done(AddCharactersRep { refresh_token: "tok".to_string(), authorized: true })
    );
}

#[test]
fn each_step_of_a_delete() {
    let service = Service::new();
    let req = del_req("alice", &["elf"]);
    let started: Progress<String> = Progress::Started;
    assert_eq!(
        service.del_characters_authorized(&req, "tok", started),
        Step::Fetch { key: ALICE.to_string() }
    );
    let fetched: Progress<String> = Progress::Fetched(Ok(strings(&["troll", "elf"])));
    assert_eq!(
        service.del_characters_authorized(&req, "tok", fetched),
        Step::Store { key: ALICE.to_string(), characters: strings(&["troll"]) }
    );
    let stored: Progress<String> = Progress::Stored(Ok(()));
    assert_eq!(
        service.del_characters_authorized(&req, "tok", stored),
        Step::Done(DelCharactersRep { refresh_token: "tok".to_string(), authorized: true })
    );
}

#[test]
fn each_step_of_a_list() {
    let service = Service::new();
    let req = list_req("alice");
    let started: ReadProgress<String> = ReadProgress::Started;
    assert_eq!(
        service.list_characters_authorized(&req, "tok", started),
        ReadStep::Fetch { key: ALICE.to_string() }
    );
    let failed: ReadProgress<String> = ReadProgress::Fetched(Err("down".to_string()));
    assert_eq!(
        service.list_characters_authorized(&req, "tok", failed),
        ReadStep::Failed(Error::AccessorFailure("down".to_string()))
    );
    let fetched: ReadProgress<String> = ReadProgress::Fetched(Ok(strings(&["orc", "elf"])));
    assert_eq!(
        service.list_characters_authorized(&req, "tok", fetched),
        ReadStep::Done(ListCharactersRep {
            characters: strings(&["orc", "elf"]),
            refresh_token: "tok".to_string(),
            authorized: true
        })
    );
}

#[test]
fn unauthorized_list_is_empty_and_echoes_the_token() {
    let rep = Service::new().list_characters_unauthorized("fresh".to_string());
    assert_eq!(
        rep,
        ListCharactersRep {
            characters: Vec::new(),
            refresh_token: "fresh".to_string(),
            authorized: false
        }
    );
}

#[test]
fn unauthorized_add_echoes_the_token() {
    let rep = Service::new().add_characters_unauthorized("fresh".to_string());
    assert_eq!(rep, AddCharactersRep { refresh_token: "fresh".to_string(), authorized: false });
}

#[test]
fn unauthorized_delete_echoes_the_token() {
    let rep = Service::new().del_characters_unauthorized(String::new());
    assert_eq!(rep, DelCharactersRep { refresh_token: String::new(), authorized: false });
}

#[test]
fn every_reply_carries_the_token_of_its_call() {
    let mut store = Store::new();
    let token = "r\u{e9}fresh-\u{1F511}";
    assert_eq!(run_list(&mut store, &list_req("a"), token).unwrap().refresh_token, token);
    assert_eq!(run_add(&mut store, &add_req("a", &["x"]), token).unwrap().refresh_token, token);
    assert_eq!(run_del(&mut store, &del_req("a", &["x"]), token).unwrap().refresh_token, token);
}
