use taskscore::client;
use taskscore::entity::Entity;
use taskscore::error::DbActionError;
use taskscore::graph::{GraphNode, GraphRelationship, GraphValue, Properties, PropertyValue};
use taskscore::relation::Relation;
use taskscore::repository::TeamRepository;
use taskscore::task::Task;
use taskscore::timestamp::Timestamp;
use taskscore::user::{Team, User};

fn now() -> Timestamp {
    Timestamp { seconds: 1_700_000_000, nanos: 0 }
}

fn user_node(identity: i64, username: &str) -> GraphNode {
    let properties = Properties::new()
        .bind("username", PropertyValue::Text(username.to_string()))
        .bind("display_name", PropertyValue::Text(username.to_uppercase()));
    GraphNode { identity, labels: vec!["User".to_string()], properties }
}

fn team_node(identity: i64, name: &str) -> GraphNode {
    let properties = Properties::new().bind("name", PropertyValue::Text(name.to_string()));
    GraphNode { identity, labels: vec!["Team".to_string()], properties }
}

fn member_edge(identity: i64, start: i64, end: i64) -> GraphRelationship {
    GraphRelationship {
        identity,
        start_node_identity: start,
        end_node_identity: end,
        rel_type: "MEMBER".to_string(),
        properties: Properties::new(),
    }
}

#[test]
fn members_are_filled_from_member_edges() {
    let manager = User::new(Some(1), "michi".to_string(), "Michi".to_string(), false);
    let mut team = Team::new(Some(7), "Church".to_string(), manager);
    let newcomer = User::new(Some(3), "franki".to_string(), "Franki".to_string(), false);
    assert!(!team.contains(&newcomer));
    let rows = vec![vec![
        GraphValue::Node(team_node(7, "Church")),
        GraphValue::Node(user_node(3, "franki")),
        GraphValue::Relationship(member_edge(50, 7, 3)),
    ]];
    let relations = client::pull_relations::<Team, User>(rows, now()).unwrap();
    TeamRepository::new().fill_team_members(&mut team, relations);
    assert_eq!(team.members.len(), 1);
    assert!(team.contains(&newcomer));
}

#[test]
fn two_member_edges_give_two_relations() {
    let repository = TeamRepository::new();
    let team = Team::new(Some(7), "Church".to_string(), User::get_default_user());
    let op = repository.members_of(&team).unwrap();
    assert_eq!(op.statement, "MATCH (s:Team)-[r:MEMBER]-(t:User) WHERE id(s) = $id RETURN s,t,r");
    assert!(!op.is_write);
    assert_eq!(op.pull_limit, -1);
    let rows = vec![
        vec![
            GraphValue::Node(team_node(7, "Church")),
            GraphValue::Node(user_node(3, "franki")),
            GraphValue::Relationship(member_edge(50, 7, 3)),
        ],
        vec![
            GraphValue::Node(team_node(7, "Church")),
            GraphValue::Node(user_node(4, "topher")),
            GraphValue::Relationship(member_edge(51, 7, 4)),
        ],
    ];
    let relations = client::pull_relations::<Team, User>(rows, now()).unwrap();
    assert_eq!(relations.len(), 2);
    assert_eq!(relations[0].source_node().id, Some(7));
    assert_eq!(relations[1].source_node().id, Some(7));
    assert_eq!(relations[0].source_node().name, "Church");
    assert_eq!(relations[0].target_node().id, Some(3));
    assert_eq!(relations[1].target_node().id, Some(4));
    assert_eq!(relations[0].target_node().username, "franki");
    assert_eq!(relations[1].target_node().username, "topher");
    assert_eq!(relations[0].name(), "MEMBER");
}

#[test]
fn relation_to_unpersisted_user_is_refused() {
    let alice = User::new(None, "alice".to_string(), "Alice".to_string(), false);
    let task = Task { id: Some(1), name: "Water the plants".to_string(), points: 10, enabled: true };
    let outcome = client::create_relationship(alice, task, &"SCORED".to_string(), None);
    match outcome {
        Err(DbActionError::UnpersistedEndpoints { source, target }) => {
            assert_eq!(source.label, "User");
            assert_eq!(source.id, None);
            assert_eq!(source.to_text(), "[User; id: none)]");
            assert_eq!(target.label, "Task");
            assert_eq!(target.id, Some(1));
            assert_eq!(target.to_text(), "[Task; id: 1)]");
        }
        other => panic!("expected a refusal, got {:?}", other.map(|pair| pair.0)),
    }
}

#[test]
fn create_statement_inlines_parameters() {
    let user = User::new(Some(12), "alice".to_string(), "Alice".to_string(), false);
    let task = Task { id: Some(1), name: "Water the plants".to_string(), points: 10, enabled: true };
    let params = Properties::new()
        .bind("note", PropertyValue::Text("quick".to_string()))
        .bind("bonus", PropertyValue::Boolean(true))
        .bind("shape", PropertyValue::Composite)
        .bind("count", PropertyValue::Integer(-3))
        .bind("ratio", PropertyValue::Decimal("0.5".to_string()))
        .bind("gone", PropertyValue::Null);
    let relation = Relation::new(user, task, "SCORED".to_string(), Some(params)).unwrap();
    assert_eq!(
        relation.get_create_statement(),
        "MATCH (s:User), (t:Task) WHERE id(s) = 12 AND id(t) = 1 CREATE (s)-[r:SCORED note: 'quick', bonus: true, count: -3, ratio: 0.5, gone: null]->(t) RETURN r"
    );
    assert_eq!(
        relation.get_match_statement(),
        "MATCH (s:User) -[r:SCORED]- (t:Task) WHERE id(s) = 12 AND id(t) = 1 RETURN r"
    );
    assert_eq!(
        relation.get_delete_statement(),
        "MATCH (s:User) -[r:SCORED]- (t:Task) WHERE id(s) = 12 AND id(t) = 1 DELETE r"
    );
    assert_eq!(User::get_node_label(), "User");
}

#[test]
fn relationships_are_grouped_by_type() {
    let mut managed = member_edge(60, 7, 1);
    managed.rel_type = "MANAGED_BY".to_string();
    let input = taskscore::entity::FromInput::from_row(vec![
        GraphValue::Relationship(member_edge(50, 7, 3)),
        GraphValue::Node(team_node(7, "Church")),
        GraphValue::Relationship(managed),
        GraphValue::Relationship(member_edge(51, 7, 4)),
    ]);
    assert_eq!(input.relationships.len(), 3);
    let members = input.relationships_typed("MEMBER");
    assert_eq!(members.iter().map(|r| r.identity).collect::<Vec<i64>>(), vec![50, 51]);
    assert_eq!(input.relationships_typed("MANAGED_BY").len(), 1);
    assert_eq!(input.relationships_typed("OWNED_BY").len(), 0);
    assert_eq!(input.nodes_labelled("Team").len(), 1);
}
