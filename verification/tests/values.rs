use taskscore::graph::{Properties, PropertyValue};
use taskscore::logic::{self, LogicError};
use taskscore::entity::{DecodeError, EntityRef};
use taskscore::error::{cause_message, Action, DbActionError};
use taskscore::login::{encoded_part, split_credentials, AuthorizationError};
use taskscore::relation::{pairs_to_str, try_param_pair_to_str, try_value_to_str};
use taskscore::session::{LoginRequest, Session};
use taskscore::task::Task;
use taskscore::text::{bool_to_string, digit_str, i64_to_string, u64_to_string};
use taskscore::timestamp::Timestamp;
use taskscore::user::User;
use taskscore::util::{get_bool, get_string, get_u16, get_u32, get_utc, try_get_string};

const CHARSET: &str = "ABCDEFGHIJKLMNOPQRSTUVWXYZabcdefghijklmnopqrstuvwxyz0123456789";

#[test]
fn numbers_are_written_in_decimal() {
    assert_eq!(u64_to_string(0), "0");
    assert_eq!(u64_to_string(7), "7");
    assert_eq!(u64_to_string(10), "10");
    assert_eq!(u64_to_string(4294967295), "4294967295");
    assert_eq!(u64_to_string(u64::MAX), "18446744073709551615");
    assert_eq!(i64_to_string(-1), "-1");
    assert_eq!(i64_to_string(0), "0");
    assert_eq!(i64_to_string(i64::MIN), "-9223372036854775808");
    assert_eq!(i64_to_string(i64::MAX), "9223372036854775807");
    assert_eq!(digit_str(0), "0");
    assert_eq!(digit_str(9), "9");
    assert_eq!(bool_to_string(true), "true");
    assert_eq!(bool_to_string(false), "false");
}

#[test]
fn properties_keep_one_value_for_each_key() {
    let bag = Properties::new()
        .insert("a".to_string(), PropertyValue::Integer(1))
        .insert("b".to_string(), PropertyValue::Integer(2))
        .insert("a".to_string(), PropertyValue::Integer(3));
    assert_eq!(bag.len(), 2);
    assert_eq!(bag.entry(0), &("a".to_string(), PropertyValue::Integer(3)));
    assert_eq!(bag.entry(1), &("b".to_string(), PropertyValue::Integer(2)));
    assert_eq!(bag.get("a"), Some(&PropertyValue::Integer(3)));
    assert_eq!(bag.get("c"), None);
    let bag = bag.bind("b", PropertyValue::Null).bind("c", PropertyValue::Null);
    assert_eq!(bag.len(), 3);
    assert_eq!(bag.get("b"), Some(&PropertyValue::Integer(2)));
    assert_eq!(bag.get("c"), Some(&PropertyValue::Null));
}

#[test]
fn readers_fall_back_to_the_alternative() {
    let bag = Properties::new()
        .bind("text", PropertyValue::Text("hello".to_string()))
        .bind("flag", PropertyValue::Boolean(true))
        .bind("number", PropertyValue::Integer(-1))
        .bind("when", PropertyValue::Text("1996-12-19T16:39:57-08:00".to_string()));
    assert_eq!(get_string(&bag, "text", "alt"), "hello");
    assert_eq!(get_string(&bag, "flag", "alt"), "alt");
    assert_eq!(get_string(&bag, "nothing", "alt"), "alt");
    assert_eq!(try_get_string(&bag, "text"), Some("hello".to_string()));
    assert_eq!(try_get_string(&bag, "number"), None);
    assert!(get_bool(&bag, "flag", false));
    assert!(get_bool(&bag, "text", true));
    assert!(!get_bool(&bag, "nothing", false));
    assert_eq!(get_u16(&bag, "number", 3), 65535);
    assert_eq!(get_u16(&bag, "text", 3), 3);
    assert_eq!(get_u32(&bag, "number", 3), 4294967295);
    assert_eq!(get_u32(&bag, "nothing", 3), 3);
    let alternative = Timestamp { seconds: 1, nanos: 2 };
    assert_eq!(get_utc(&bag, "when", alternative), Timestamp { seconds: 851042397, nanos: 0 });
    assert_eq!(get_utc(&bag, "text", alternative), alternative);
    assert_eq!(get_utc(&bag, "flag", alternative), alternative);
    assert_eq!(get_utc(&bag, "nothing", alternative), alternative);
}

#[test]
fn timestamps_are_read_and_written_as_rfc_3339() {
    let parsed = Timestamp::parse("2015-05-15T00:00:00.25Z").unwrap();
    assert_eq!(parsed, Timestamp { seconds: 1431648000, nanos: 250_000_000 });
    assert_eq!(Timestamp::parse("2015-05-15 00:00:00 UTC"), None);
    assert_eq!(Timestamp::parse(""), None);
    let text = parsed.to_text().unwrap();
    assert_eq!(text, "2015-05-15T00:00:00.250+00:00");
    assert_eq!(Timestamp::parse(&text), Some(parsed));
    assert_eq!(Timestamp { seconds: 0, nanos: 0 }.to_text().unwrap(), "1970-01-01T00:00:00+00:00");
    assert_eq!(Timestamp { seconds: i64::MAX, nanos: 0 }.to_text(), None);
    assert_eq!(Timestamp { seconds: 0, nanos: 2_000_000_000 }.to_text(), None);
    let alternative = Timestamp { seconds: 9, nanos: 9 };
    assert_eq!(Timestamp::or_alternative(None, alternative), alternative);
    assert_eq!(Timestamp::or_alternative(Some(parsed), alternative), parsed);
}

#[test]
fn scalars_are_written_by_kind() {
    assert_eq!(try_value_to_str(&PropertyValue::Boolean(false)), Some("false".to_string()));
    assert_eq!(try_value_to_str(&PropertyValue::Integer(-42)), Some("-42".to_string()));
    assert_eq!(try_value_to_str(&PropertyValue::Decimal("1.5".to_string())), Some("1.5".to_string()));
    assert_eq!(try_value_to_str(&PropertyValue::Text("a b".to_string())), Some("'a b'".to_string()));
    assert_eq!(
        try_value_to_str(&PropertyValue::Temporal("2015-05-15".to_string())),
        Some("2015-05-15".to_string())
    );
    assert_eq!(try_value_to_str(&PropertyValue::Null), Some("null".to_string()));
    assert_eq!(try_value_to_str(&PropertyValue::Composite), None);
    assert_eq!(
        try_param_pair_to_str(&"k".to_string(), &PropertyValue::Integer(1)),
        Ok("k: 1".to_string())
    );
    assert_eq!(try_param_pair_to_str(&"k".to_string(), &PropertyValue::Composite), Err(()));
    assert_eq!(pairs_to_str(&Properties::new()), "");
    let only_composite = Properties::new().bind("x", PropertyValue::Composite);
    assert_eq!(pairs_to_str(&only_composite), "");
    let mixed = Properties::new()
        .bind("x", PropertyValue::Composite)
        .bind("y", PropertyValue::Null)
        .bind("z", PropertyValue::Composite)
        .bind("w", PropertyValue::Boolean(true));
    assert_eq!(pairs_to_str(&mixed), "y: null, w: true");
}

#[test]
fn session_tokens_are_thirty_characters_of_the_set() {
    let first = Session::generate_session_id();
    let second = Session::generate_session_id();
    assert_eq!(first.chars().count(), 30);
    assert!(first.chars().all(|c| CHARSET.contains(c)));
    assert!(second.chars().all(|c| CHARSET.contains(c)));
    assert_ne!(first, second);
    assert_eq!(taskscore::session::token_from_indices(&vec![0, 25, 26, 51, 52, 61]), "AZaz09");
    assert_eq!(taskscore::session::token_from_indices(&vec![]), "");
    let user = User::new(Some(1), "michi".to_string(), "Michi".to_string(), false);
    let at = Timestamp { seconds: 100, nanos: 0 };
    let session = Session::new(None, user, at);
    assert_eq!(session.id, None);
    assert_eq!(session.started, at);
    assert_eq!(session.refreshed, at);
    assert_eq!(session.session_id.len(), 30);
    assert_eq!(session.user.username, "michi");
}

#[test]
fn passwords_are_checked_against_the_stored_hash() {
    let mut user = User::new(Some(1), "roterkohl".to_string(), "Flori".to_string(), true);
    assert_eq!(user.verify_password(&None), Some(true));
    assert_eq!(user.verify_password(&Some("anything".to_string())), Some(true));
    assert!(user.set_password("Flori1234".to_string()));
    let hash = user.pwd_hash.clone().unwrap();
    assert_ne!(hash, "Flori1234");
    assert_eq!(hash.len(), 60);
    assert_eq!(user.verify_password(&Some("Flori1234".to_string())), Some(true));
    assert_eq!(user.verify_password(&Some("Flori5678".to_string())), Some(false));
    assert_eq!(user.verify_password(&None), Some(false));
    assert_eq!(user.username, "roterkohl");
    user.pwd_hash = Some("not a hash".to_string());
    assert_eq!(user.verify_password(&Some("Flori1234".to_string())), None);
}

fn task(points: u16) -> Task {
    Task { id: Some(4), name: "Make coffee".to_string(), points, enabled: true }
}

#[test]
fn scoring_adds_the_points_of_the_task() {
    let mut user = User::new(Some(4), "topher".to_string(), "Topher".to_string(), true);
    user.points = 375;
    let after = logic::score(4, 4, Ok(Some(user.clone())), Ok(Some(task(75)))).unwrap();
    assert_eq!(after.points, 450);
    assert_eq!(after.username, "topher");
    assert!(matches!(
        logic::score(40, 4, Ok(None), Ok(Some(task(75)))),
        Err(LogicError::UserNotFound(40))
    ));
    assert!(matches!(
        logic::score(4, 40, Ok(Some(user.clone())), Ok(None)),
        Err(LogicError::TaskNotFound(40))
    ));
    assert!(matches!(
        logic::score(4, 4, Err(DbActionError::Statement("down".to_string())), Ok(None)),
        Err(LogicError::Store(DbActionError::Statement(_)))
    ));
    assert!(matches!(
        logic::score(4, 4, Ok(Some(user.clone())), Err(DbActionError::Statement("down".to_string()))),
        Err(LogicError::Store(_))
    ));
    user.points = 65500;
    assert!(matches!(
        logic::score(4, 4, Ok(Some(user.clone())), Ok(Some(task(36)))),
        Err(LogicError::PointsOverflow)
    ));
    assert_eq!(logic::score(4, 4, Ok(Some(user.clone())), Ok(Some(task(35)))).unwrap().points, 65535);
    assert_eq!(logic::scored(Ok(user), false).unwrap(), 65500);
    assert!(logic::scored(Err(DbActionError::Statement("down".to_string())), true).is_err());
}

#[test]
fn login_opens_a_session_for_the_right_password() {
    let at = Timestamp { seconds: 100, nanos: 0 };
    let mut user = User::new(Some(1), "roterkohl".to_string(), "Flori".to_string(), true);
    assert!(user.set_password("Flori1234".to_string()));
    let request = LoginRequest { username: "roterkohl".to_string(), password: Some("Flori1234".to_string()) };
    let session = logic::login(&request, Ok(Some(user.clone())), at).unwrap();
    assert_eq!(session.session_id.len(), 30);
    assert_eq!(session.user.id, Some(1));
    assert_eq!(session.id, None);
    let wrong = LoginRequest { username: "roterkohl".to_string(), password: Some("Flori5678".to_string()) };
    assert!(matches!(logic::login(&wrong, Ok(Some(user.clone())), at), Err(LogicError::WrongPassword)));
    assert!(matches!(logic::login(&request, Ok(None), at), Err(LogicError::UnknownUser)));
    assert!(matches!(
        logic::login(&request, Err(DbActionError::Statement("down".to_string())), at),
        Err(LogicError::Store(_))
    ));
    user.pwd_hash = Some("garbage".to_string());
    assert!(matches!(logic::login(&request, Ok(Some(user.clone())), at), Err(LogicError::BrokenPasswordHash)));
    assert!(matches!(
        logic::login_with_verdict(Some(user), Some(false), at),
        Err(LogicError::WrongPassword)
    ));
    assert!(matches!(logic::login_with_verdict(None, Some(true), at), Err(LogicError::UnknownUser)));
}

#[test]
fn only_an_admin_adds_users_under_a_free_name() {
    let at = Timestamp { seconds: 100, nanos: 0 };
    let admin = Session::new(Some(1), User::new(Some(1), "a".to_string(), "A".to_string(), true), at);
    let plain = Session::new(Some(2), User::new(Some(2), "b".to_string(), "B".to_string(), false), at);
    assert!(logic::may_add_user(&admin, &Ok(None)).is_ok());
    assert!(matches!(logic::may_add_user(&plain, &Ok(None)), Err(LogicError::NotAnAdmin)));
    let taken = Ok(Some(User::new(Some(3), "c".to_string(), "C".to_string(), false)));
    assert!(matches!(logic::may_add_user(&admin, &taken), Err(LogicError::UsernameNotAvailable)));
    let failed = Err(DbActionError::Statement("down".to_string()));
    assert!(matches!(logic::may_add_user(&admin, &failed), Err(LogicError::UsernameNotAvailable)));
    assert!(logic::found_or_none::<User>(failed).is_none());
    assert!(logic::found_or_none(taken).is_some());
}

#[test]
fn credentials_are_read_from_a_basic_header() {
    let request = LoginRequest::from_authorization(Some("Basic cm90ZXJrb2hsOkZsb3JpMTIzNA==")).unwrap();
    assert_eq!(request.username, "roterkohl");
    assert_eq!(request.password, Some("Flori1234".to_string()));
    let padded = LoginRequest::from_authorization(Some("Basic  \tcm90ZXJrb2hs \n")).unwrap();
    assert_eq!(padded.username, "roterkohl");
    assert_eq!(padded.password, None);
    assert_eq!(LoginRequest::from_authorization(None).err(), Some(AuthorizationError::Missing));
    assert_eq!(
        LoginRequest::from_authorization(Some("Bearer abc")).err(),
        Some(AuthorizationError::NotBasic)
    );
    assert_eq!(
        LoginRequest::from_authorization(Some("Basic")).err(),
        Some(AuthorizationError::NotBasic)
    );
    assert_eq!(
        LoginRequest::from_authorization(Some("Basic   \u{a0} ")).err(),
        Some(AuthorizationError::Empty)
    );
    assert_eq!(
        LoginRequest::from_authorization(Some("Basic ***")).err(),
        Some(AuthorizationError::NotBase64)
    );
    assert_eq!(
        LoginRequest::from_authorization(Some("Basic /w==")).err(),
        Some(AuthorizationError::NotUtf8)
    );
    assert_eq!(encoded_part("Basic  ab "), Ok((7, 9)));
    assert_eq!(encoded_part("Basic x"), Ok((6, 7)));
    let split = split_credentials("a:b:c");
    assert_eq!(split.username, "a");
    assert_eq!(split.password, Some("b:c".to_string()));
    let empty = split_credentials(":");
    assert_eq!(empty.username, "");
    assert_eq!(empty.password, Some(String::new()));
    let nameless = split_credentials("");
    assert_eq!(nameless.username, "");
    assert_eq!(nameless.password, None);
}

#[test]
fn failures_say_what_went_wrong() {
    let alice = EntityRef { label: "User".to_string(), id: None };
    let task = EntityRef { label: "Task".to_string(), id: Some(1) };
    assert_eq!(
        DbActionError::UnpersistedEndpoints { source: alice, target: task }.message(),
        "Both nodes need to have an Id when creating a relation; source_node.id: [User; id: none)]; target_node.id: [Task; id: 1)]"
    );
    let alice = EntityRef { label: "User".to_string(), id: None };
    assert_eq!(
        DbActionError::Unpersisted { entity: alice, action: Action::Delete }.message(),
        "Entity [User; id: none)] is unpersisted and cannot be deleted"
    );
    let alice = EntityRef { label: "User".to_string(), id: None };
    assert_eq!(
        DbActionError::Unpersisted { entity: alice, action: Action::Update }.message(),
        "Id of entity [User; id: none)] is unknown; entity cannot be modified"
    );
    let alice = EntityRef { label: "User".to_string(), id: None };
    assert_eq!(
        DbActionError::UnpersistedSource(alice).message(),
        "Relationship cannot be deleted; Source entity [User; id: none)] is unpersisted"
    );
    let alice = EntityRef { label: "User".to_string(), id: None };
    assert_eq!(
        DbActionError::UnpersistedTarget(alice).message(),
        "Relationship cannot be deleted; Target entity [User; id: none)] is unpersisted"
    );
    assert_eq!(DbActionError::NoEntity(Action::Create).message(), "Create did not return entity");
    assert_eq!(
        DbActionError::NoRelation(Action::CreateRelation).message(),
        "Create relation did not return relation"
    );
    assert_eq!(
        DbActionError::Decode {
            label: "Session".to_string(),
            row: 0,
            cause: DecodeError::UnusualNumberOfNodes(2)
        }
        .message(),
        "Unable to create entity object of type Session; row 0: unusual number of nodes: 2"
    );
    assert_eq!(
        DbActionError::Decode { label: "Task".to_string(), row: 12, cause: DecodeError::NoNodes }
            .message(),
        "Unable to create entity object of type Task; row 12: no nodes available"
    );
    assert_eq!(cause_message(&DecodeError::NoNodes), "no nodes available");
    assert_eq!(
        cause_message(&DecodeError::UnusualNumberOfNodes(3)),
        "unusual number of nodes: 3"
    );
    assert_eq!(
        DbActionError::Transaction("busy".to_string()).message(),
        "Unable to begin transaction: busy"
    );
    assert_eq!(DbActionError::Statement("syntax".to_string()).message(), "syntax");
    assert_eq!(DbActionError::Connection("refused".to_string()).message(), "refused");
    assert_eq!(DbActionError::NotARelationship.message(), "Unable to create relation from record");
    assert_eq!(
        DbActionError::ForeignIdentity { label: "Task".to_string(), identity: -4 }.message(),
        "Id -4 stored in relationship to entity Task is not convertible to target id"
    );
    assert_eq!(
        DbActionError::NotFound { label: "Task".to_string(), identity: 4 }.message(),
        "Unable to create Relation; could not find entity of type Task with id 4"
    );
    assert_eq!(
        DbActionError::MissingEndpoint { position: 0, label: "Task".to_string(), identity: 4 }
            .message(),
        "Unable to create Relation; relationship 0: result holds no node of type Task with id 4"
    );
    assert_eq!(
        DbActionError::UnresolvedRelation {
            name: "SCORED".to_string(),
            source_present: true,
            target_present: false,
            source_identity: 12,
            target_identity: 1
        }
        .message(),
        "Could not load relation of type SCORED; Source is present: true; target is present: false; src_id: 12, target_id: 1"
    );
    assert_eq!(
        DbActionError::UnwritableTimestamp.message(),
        "Timestamp cannot be written as a date and time"
    );
}

#[test]
fn users_are_the_same_by_identity() {
    let a = User::new(Some(1), "a".to_string(), "A".to_string(), false);
    let renamed = User::new(Some(1), "b".to_string(), "B".to_string(), true);
    let other = User::new(Some(2), "a".to_string(), "A".to_string(), false);
    let unsaved = User::new(None, "a".to_string(), "A".to_string(), false);
    assert!(a == renamed);
    assert!(a != other);
    assert!(a != unsaved);
    assert!(unsaved == User::get_default_user());
}

#[test]
fn logout_deletes_the_session_that_was_found() {
    let at = Timestamp { seconds: 100, nanos: 0 };
    let user = User::new(Some(1), "a".to_string(), "A".to_string(), true);
    let mut session = Session::new(Some(9), user, at);
    let op = logic::logout(Ok(Some(session.clone()))).unwrap().unwrap();
    assert_eq!(op.statement, "MATCH (p:Session) WHERE id(p) = $id DETACH DELETE p");
    assert_eq!(op.params.as_ref().unwrap().get("id"), Some(&PropertyValue::Integer(9)));
    assert!(op.is_write);
    assert!(logic::logout(Ok(None)).unwrap().is_none());
    assert!(matches!(
        logic::logout(Err(DbActionError::Statement("down".to_string()))),
        Err(DbActionError::Statement(_))
    ));
    session.id = None;
    assert!(matches!(logic::logout(Ok(Some(session))), Err(DbActionError::Unpersisted { .. })));
    let stored = User::new(Some(5), "a".to_string(), "A".to_string(), true);
    assert_eq!(logic::added_user_id(Ok(stored)).unwrap(), 5);
    let unstored = User::new(None, "a".to_string(), "A".to_string(), true);
    assert!(matches!(logic::added_user_id(Ok(unstored)), Err(LogicError::NoIdentity)));
    assert!(matches!(
        logic::added_user_id(Err(DbActionError::Statement("down".to_string()))),
        Err(LogicError::Store(_))
    ));
}
