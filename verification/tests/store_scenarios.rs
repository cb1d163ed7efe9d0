use taskscore::client::{self, Operation};
use taskscore::error::{Action, DbActionError};
use taskscore::graph::{GraphNode, GraphValue, Properties, PropertyValue};
use taskscore::repository::{
    ModifyRepository, ReadAllRepository, ReadRepository, TaskRepository, UserRepository,
    WriteRepository,
};
use taskscore::task::Task;
use taskscore::timestamp::Timestamp;
use taskscore::transaction::{Command, Exchange};
use taskscore::user::User;

fn now() -> Timestamp {
    Timestamp { seconds: 1_700_000_000, nanos: 0 }
}

/// A store that keeps nodes in memory and understands the statements of the
/// repositories by their first words. It records every command it is sent.
struct MemoryStore {
    nodes: Vec<(i64, String, Vec<(String, PropertyValue)>)>,
    next_identity: i64,
    log: Vec<Command>,
    fail_run: bool,
    pending: Vec<Vec<GraphValue>>,
}

impl MemoryStore {
    fn new() -> MemoryStore {
        MemoryStore { nodes: vec![], next_identity: 1, log: vec![], fail_run: false, pending: vec![] }
    }

    fn node(&self, index: usize) -> GraphNode {
        let (identity, label, entries) = &self.nodes[index];
        let mut properties = Properties::new();
        for (key, value) in entries {
            properties = properties.insert(key.clone(), value.clone());
        }
        GraphNode { identity: *identity, labels: vec![label.clone()], properties }
    }

    fn entries_of(op: &Operation) -> Vec<(String, PropertyValue)> {
        let mut out = vec![];
        if let Some(params) = &op.params {
            for i in 0..params.len() {
                let entry = params.entry(i);
                out.push((entry.0.clone(), entry.1.clone()));
            }
        }
        out
    }

    fn label_of(statement: &str) -> String {
        let after = statement.split_once(':').unwrap().1;
        after.chars().take_while(|c| c.is_alphanumeric()).collect()
    }

    fn run(&mut self, op: &Operation) -> bool {
        if self.fail_run {
            return false;
        }
        let label = MemoryStore::label_of(&op.statement);
        let entries = MemoryStore::entries_of(op);
        let id = entries.iter().find(|e| e.0 == "id").map(|e| e.1.clone());
        self.pending = vec![];
        if op.statement.starts_with("CREATE") {
            self.nodes.push((self.next_identity, label, entries));
            self.next_identity += 1;
            self.pending.push(vec![GraphValue::Node(self.node(self.nodes.len() - 1))]);
        } else if op.statement.contains("DETACH DELETE") {
            self.nodes.retain(|n| Some(PropertyValue::Integer(n.0)) != id);
        } else if op.statement.contains(" SET ") {
            for i in 0..self.nodes.len() {
                if Some(PropertyValue::Integer(self.nodes[i].0)) == id {
                    for (key, value) in &entries {
                        if key == "id" {
                            continue;
                        }
                        self.nodes[i].2.retain(|e| &e.0 != key);
                        self.nodes[i].2.push((key.clone(), value.clone()));
                    }
                    self.pending.push(vec![GraphValue::Node(self.node(i))]);
                }
            }
        } else {
            for i in 0..self.nodes.len() {
                let wanted = match &id {
                    Some(value) => &PropertyValue::Integer(self.nodes[i].0) == value,
                    None => true,
                };
                if self.nodes[i].1 == label && wanted {
                    self.pending.push(vec![GraphValue::Node(self.node(i))]);
                }
            }
        }
        true
    }

    /// Drives one operation through its exchange. `decode` is handed the
    /// rows of the pull and says whether they were usable.
    fn perform<R>(
        &mut self,
        op: &Operation,
        decode: impl FnOnce(Vec<Vec<GraphValue>>) -> Result<R, DbActionError>,
    ) -> Result<R, DbActionError> {
        let (mut exchange, mut command) = Exchange::start(op.is_write);
        let mut decode = Some(decode);
        let mut outcome: Option<Result<R, DbActionError>> = None;
        loop {
            self.log.push(command);
            let ok = match command {
                Command::Begin | Command::Commit | Command::Rollback => true,
                Command::Run => {
                    let ok = self.run(op);
                    if !ok {
                        outcome = Some(Err(DbActionError::Statement("rejected".to_string())));
                    }
                    ok
                }
                Command::Pull => {
                    let rows = std::mem::take(&mut self.pending);
                    let decoded = (decode.take().unwrap())(rows);
                    let ok = decoded.is_ok();
                    outcome = Some(decoded);
                    ok
                }
                Command::Finish => break,
            };
            command = exchange.advance(ok);
        }
        assert!(exchange.is_finished());
        let outcome = outcome.unwrap();
        assert_eq!(exchange.has_succeeded(), outcome.is_ok());
        outcome
    }
}

fn count(log: &[Command], command: Command) -> usize {
    log.iter().filter(|c| **c == command).count()
}

#[test]
fn task_is_added_fetched_and_deleted() {
    let mut store = MemoryStore::new();
    let repository = TaskRepository::new();
    let task = Task { id: None, name: "Water the plants".to_string(), points: 10, enabled: true };
    assert!(task.id.is_none());

    let op = repository.add(&task).unwrap();
    assert_eq!(
        op.statement,
        "CREATE (u:Task {name: $name, points: $points, enabled: $enabled }) RETURN u"
    );
    assert!(op.is_write);
    assert_eq!(op.pull_limit, 1);
    let added: Task = store
        .perform(&op, |rows| client::returned_entity::<Task>(Action::Create, rows, now()))
        .unwrap();
    assert_eq!(added.id, Some(1));
    assert_eq!(added.name, "Water the plants");
    assert_eq!(added.points, 10);
    assert!(added.enabled);
    assert_eq!(store.log, vec![Command::Begin, Command::Run, Command::Pull, Command::Commit, Command::Finish]);

    store.log.clear();
    let op = repository.find_by_id(&1);
    assert_eq!(op.statement, "MATCH (e:Task) WHERE id(e) = $id RETURN e");
    let fetched = store
        .perform(&op, |rows| client::fetch_by_id_result::<Task>(rows, now()))
        .unwrap()
        .unwrap();
    assert_eq!(fetched.id, Some(1));
    assert_eq!(fetched.name, "Water the plants");
    assert_eq!(fetched.points, 10);
    assert!(fetched.enabled);
    assert_eq!(store.log, vec![Command::Run, Command::Pull, Command::Finish]);

    let op = repository.delete(&fetched).unwrap();
    assert_eq!(op.statement, "MATCH (p:Task) WHERE id(p) = $id DETACH DELETE p");
    assert_eq!(op.params.as_ref().unwrap().get("id"), Some(&PropertyValue::Integer(1)));
    store.perform(&op, |_rows| Ok(())).unwrap();

    let op = repository.find_by_id(&1);
    let gone = store.perform(&op, |rows| client::fetch_by_id_result::<Task>(rows, now())).unwrap();
    assert!(gone.is_none());
}

#[test]
fn find_all_on_an_empty_store_is_an_empty_list() {
    let mut store = MemoryStore::new();
    let op = TaskRepository::new().find_all();
    assert_eq!(op.statement, "MATCH (e:Task) RETURN e");
    assert_eq!(op.params.as_ref().unwrap().len(), 0);
    let all = store.perform(&op, |rows| client::pull_entities::<Task>(rows, now())).unwrap();
    assert!(all.is_empty());
    let none = client::fetch_by_id_result::<Task>(vec![], now()).unwrap();
    assert!(none.is_none());
}

#[test]
fn failed_run_of_a_write_is_rolled_back_once_and_never_committed() {
    let mut store = MemoryStore::new();
    store.fail_run = true;
    let task = Task { id: None, name: "Make coffee".to_string(), points: 75, enabled: true };
    let op = TaskRepository::new().add(&task).unwrap();
    let outcome =
        store.perform(&op, |rows| client::returned_entity::<Task>(Action::Create, rows, now()));
    assert!(matches!(outcome, Err(DbActionError::Statement(_))));
    assert_eq!(count(&store.log, Command::Rollback), 1);
    assert_eq!(count(&store.log, Command::Commit), 0);
    assert_eq!(store.log, vec![Command::Begin, Command::Run, Command::Rollback, Command::Finish]);
    assert!(store.nodes.is_empty());
}

#[test]
fn failed_run_of_a_read_just_ends() {
    let mut store = MemoryStore::new();
    store.fail_run = true;
    let op = TaskRepository::new().find_all();
    let outcome = store.perform(&op, |rows| client::pull_entities::<Task>(rows, now()));
    assert!(outcome.is_err());
    assert_eq!(store.log, vec![Command::Run, Command::Finish]);
}

#[test]
fn create_that_returns_nothing_is_rolled_back() {
    let mut store = MemoryStore::new();
    let op = client::create("MATCH (e:Task) WHERE id(e) = $id RETURN e".to_string(), Properties::new());
    let outcome =
        store.perform(&op, |rows| client::returned_entity::<Task>(Action::Create, rows, now()));
    assert!(matches!(outcome, Err(DbActionError::NoEntity(Action::Create))));
    assert_eq!(store.log, vec![Command::Begin, Command::Run, Command::Pull, Command::Rollback, Command::Finish]);
}

#[test]
fn user_round_trips_through_the_store() {
    let mut store = MemoryStore::new();
    let repository = UserRepository::new();
    let mut user = User::new(None, "alice".to_string(), "Alice".to_string(), true);
    user.points = 30;
    let op = repository.add(&user).unwrap();
    let added: User = store
        .perform(&op, |rows| client::returned_entity::<User>(Action::Create, rows, now()))
        .unwrap();
    assert_eq!(added.id, Some(1));
    let fetched = store
        .perform(&repository.find_by_id(&1), |rows| client::fetch_by_id_result::<User>(rows, now()))
        .unwrap()
        .unwrap();
    assert_eq!(fetched.username, "alice");
    assert_eq!(fetched.display_name, "Alice");
    assert!(fetched.is_admin);
    assert_eq!(fetched.points, 30);
    assert_eq!(fetched.pwd_hash, None);
    assert_eq!(fetched.verify_password(&Some("anything".to_string())), Some(true));

    let by_name = repository.find_user_by_username(&"alice".to_string());
    assert_eq!(by_name.statement, "MATCH (u:User {username: $username}) RETURN u");
    assert_eq!(
        by_name.params.as_ref().unwrap().get("username"),
        Some(&PropertyValue::Text("alice".to_string()))
    );

    let mut changed = fetched;
    changed.points = 40;
    changed.display_name = "Alice A.".to_string();
    let op = repository.update(&changed).unwrap();
    assert_eq!(
        op.statement,
        "MATCH (u:User) WHERE id(u) = $id SET u.username = $username, u.display_name = $display_name, u.pwd_hash = $pwd_hash, u.is_admin = $is_admin, u.points = $points RETURN u"
    );
    let updated: User = store
        .perform(&op, |rows| client::returned_entity::<User>(Action::Update, rows, now()))
        .unwrap();
    assert_eq!(updated.points, 40);
    assert_eq!(updated.display_name, "Alice A.");
    assert_eq!(updated.id, Some(1));
    assert_eq!(updated.pwd_hash, None);
    assert_eq!(op_hash(&repository, &updated), Some(PropertyValue::Null));

    let mut secured = updated;
    secured.pwd_hash = Some("$2b$12$abcdefghijklmnopqrstuuSTUVWXYZ0123456789abcdefghijklmno".to_string());
    secured.is_admin = false;
    secured.username = "alice2".to_string();
    let op = repository.update(&secured).unwrap();
    let stored: User = store
        .perform(&op, |rows| client::returned_entity::<User>(Action::Update, rows, now()))
        .unwrap();
    assert_eq!(stored.pwd_hash, secured.pwd_hash);
    assert_eq!(stored.username, "alice2");
    assert!(!stored.is_admin);
    assert_eq!(stored.points, 40);
    assert_eq!(stored.display_name, "Alice A.");
    let refetched = store
        .perform(&repository.find_by_id(&1), |rows| client::fetch_by_id_result::<User>(rows, now()))
        .unwrap()
        .unwrap();
    assert_eq!(refetched.pwd_hash, secured.pwd_hash);

    let mut cleared = refetched;
    cleared.pwd_hash = None;
    let op = repository.update(&cleared).unwrap();
    let stored: User = store
        .perform(&op, |rows| client::returned_entity::<User>(Action::Update, rows, now()))
        .unwrap();
    assert_eq!(stored.pwd_hash, None);
}

fn op_hash(repository: &UserRepository, user: &User) -> Option<PropertyValue> {
    let op = repository.update(user).unwrap();
    op.params.as_ref().unwrap().get("pwd_hash").cloned()
}

#[test]
fn operations_on_unpersisted_entities_make_no_operation() {
    let task = Task { id: None, name: "Hand in hours".to_string(), points: 30, enabled: false };
    let repository = TaskRepository::new();
    match repository.update(&task) {
        Err(DbActionError::Unpersisted { entity, action }) => {
            assert_eq!(entity.label, "Task");
            assert_eq!(entity.id, None);
            assert_eq!(action, Action::Update);
        }
        other => panic!("expected a refusal, got {:?}", other),
    }
    match repository.delete(&task) {
        Err(error) => {
            assert!(error.is_precondition_error());
            assert!(matches!(error, DbActionError::Unpersisted { action: Action::Delete, .. }));
        }
        Ok(op) => panic!("expected a refusal, got {:?}", op),
    }
    let user = User::new(None, "bob".to_string(), "Bob".to_string(), false);
    assert!(matches!(
        UserRepository::new().update(&user),
        Err(DbActionError::Unpersisted { action: Action::Update, .. })
    ));
    let persisted = User::new(Some(2), "bob".to_string(), "Bob".to_string(), false);
    assert!(matches!(
        client::delete_relation(&task, &persisted, &"SCORED".to_string()),
        Err(DbActionError::UnpersistedSource(_))
    ));
    assert!(matches!(
        client::delete_relation(&persisted, &task, &"SCORED".to_string()),
        Err(DbActionError::UnpersistedTarget(_))
    ));
    assert!(matches!(
        client::fetch_relations_of_node_of_type::<Task, User>(&task, &"SCORED".to_string()),
        Err(DbActionError::UnpersistedSource(_))
    ));
    assert!(!DbActionError::Statement("x".to_string()).is_precondition_error());
}

#[test]
fn task_update_binds_every_field() {
    let task = Task { id: Some(4), name: "Make coffee".to_string(), points: 75, enabled: true };
    let op = TaskRepository::new().update(&task).unwrap();
    assert_eq!(
        op.statement,
        "MATCH (u:Task) WHERE id(u) = $id SET u.name = $name, u.points = $points, u.enabled = $enabled RETURN u"
    );
    let params = op.params.unwrap();
    assert_eq!(params.len(), 4);
    assert_eq!(params.get("id"), Some(&PropertyValue::Integer(4)));
    assert_eq!(params.get("name"), Some(&PropertyValue::Text("Make coffee".to_string())));
    assert_eq!(params.get("points"), Some(&PropertyValue::Integer(75)));
    assert_eq!(params.get("enabled"), Some(&PropertyValue::Boolean(true)));
    assert!(op.is_write);
    assert_eq!(op.pull_limit, 1);
}
