use taskscore::legacy_repository::{
    add_member, score_if_enabled, seeded_user, seeded_user_with_hash, LegacyError,
    LegacyRepository,
};
use taskscore::session::{LoginRequest, Session};
use taskscore::task::Task;
use taskscore::timestamp::Timestamp;
use taskscore::user::{Team, User};

fn now() -> Timestamp {
    Timestamp { seconds: 1_700_000_000, nanos: 0 }
}

fn repository() -> LegacyRepository {
    LegacyRepository::init_repository(now()).unwrap()
}

fn login(repository: &mut LegacyRepository, username: &str, password: &str) -> Result<Session, LegacyError> {
    let request =
        LoginRequest { username: username.to_string(), password: Some(password.to_string()) };
    repository.login(&request, now())
}

#[test]
fn test_get_user_exists() {
    let exists_opt = repository().get_user(1);
    assert!(exists_opt.is_some());
    assert_eq!(Some(1), exists_opt.unwrap().id);
}

#[test]
fn test_get_user_does_not_exist() {
    let does_not_exist_opt = repository().get_user(10);
    assert!(does_not_exist_opt.is_none());
}

#[test]
fn test_find_user_by_username_exists() {
    let result = repository().find_user_by_username(&"topher".to_owned());
    assert!(result.is_some());
    let user = result.unwrap();
    assert_eq!(Some(4), user.id);
}

#[test]
fn test_find_user_by_username_does_not_exist() {
    let result = repository().find_user_by_username(&"eduardLaser".to_owned());
    assert!(result.is_none());
}

#[test]
fn test_get_all_users() {
    let result = repository().get_all_users();
    assert_eq!(4, result.len());
}

#[test]
fn test_get_task_exists() {
    let exists_opt = repository().get_task(1);
    assert!(exists_opt.is_some());
    assert_eq!(Some(1), exists_opt.unwrap().id);
}

#[test]
fn test_get_task_does_not_exist() {
    let does_not_exist_opt = repository().get_task(4711);
    assert!(does_not_exist_opt.is_none());
}

#[test]
fn test_get_all_tasks() {
    let result = repository().get_all_tasks();
    assert_eq!(4, result.len());
}

#[test]
fn test_find_session_exists() {
    let mut repository = repository();
    let admin_session = login(&mut repository, "roterkohl", "Flori1234").unwrap();
    let result = repository.find_session(&admin_session.session_id);
    assert!(result.is_some());
    assert_eq!(admin_session.session_id, result.unwrap().session_id);
}

#[test]
fn test_get_session_does_not_exist() {
    let mut repository = repository();
    login(&mut repository, "roterkohl", "Flori1234").unwrap();
    let result = repository.find_session(&"&ADMIN_SESSION.id".to_owned());
    assert!(result.is_none());
    assert!(repository.get_session(&"&ADMIN_SESSION.id".to_owned()).is_none());
}

#[test]
fn test_score_ok() {
    let result = repository().score(4, 4, now());
    assert!(result.is_ok());
    assert_eq!(450, result.unwrap());
}

#[test]
fn test_score_user_does_not_exist() {
    let result = repository().score(40, 4, now());
    assert!(result.is_err());
    assert_eq!("User does not exist", result.unwrap_err().message());
}

#[test]
fn test_score_task_does_not_exist() {
    let result = repository().score(4, 40, now());
    assert!(result.is_err());
    assert_eq!("Task does not exist", result.unwrap_err().message());
}

#[test]
fn test_score_task_is_disabled() {
    let result = repository().score(4, 2, now());
    assert!(result.is_err());
    assert_eq!("Task is not enabled", result.unwrap_err().message());
}

#[test]
fn test_create_and_add_user_ok() {
    let mut repository = repository();
    let result = repository.create_and_add_user(
        "Winston".to_owned(),
        "Wilson".to_owned(),
        "fml".to_owned(),
        false,
    );
    assert!(result.is_ok());
    let new_user_id = result.unwrap().id.unwrap();
    assert_eq!(new_user_id, 5);
    let new_user_result = repository.get_user(new_user_id);
    assert!(new_user_result.is_some());
}

#[test]
fn test_create_and_add_user_name_clash() {
    let result = repository().create_and_add_user(
        "dliwespf".to_owned(),
        "Wilson".to_owned(),
        "fml".to_owned(),
        false,
    );
    let err = result.err();

    assert!(err.is_some());
    assert_eq!("Username is not available", err.unwrap().message());
}

#[test]
fn test_add_team() {
    let mut repository = repository();
    let manager = repository.get_user(3).unwrap();
    let new_id = repository.add_team(Team::new(Some(0), "newTeam".to_owned(), manager));
    assert_eq!(new_id, Some(1));
    assert_eq!(repository.teams.len(), 1);
    assert_eq!(repository.teams[0].id, Some(1));
    assert_eq!(repository.teams[0].name, "newTeam");
}

#[test]
fn test_add_user_to_team() {
    let mut repository = repository();
    let michi = repository.get_user(2).unwrap();
    let franki = repository.get_user(3).unwrap();
    let topheri = repository.get_user(4).unwrap();
    repository.add_team(Team::new(None, "Church".to_owned(), michi.clone()));
    let team_name = "Church".to_owned();
    assert_eq!(repository.add_user_to_team(&team_name, 3, &michi), Ok(()));
    assert_eq!(repository.teams[0].members.len(), 2);
    assert_eq!(repository.teams[0].members[1].username, "dliwespf");
    assert_eq!(repository.add_user_to_team(&team_name, 3, &michi), Err(LegacyError::AlreadyMember));
    assert_eq!(repository.add_user_to_team(&team_name, 2, &michi), Err(LegacyError::AlreadyMember));
    assert_eq!(repository.add_user_to_team(&team_name, 1, &franki), Err(LegacyError::NotAuthorized));
    assert_eq!(repository.add_user_to_team(&team_name, 1, &topheri), Ok(()));
    assert_eq!(repository.add_user_to_team(&team_name, 40, &michi), Err(LegacyError::UserDoesNotExist));
    assert_eq!(
        repository.add_user_to_team(&"Babes".to_owned(), 3, &michi),
        Err(LegacyError::TeamDoesNotExist)
    );
    assert_eq!(repository.teams[0].members.len(), 3);
    let mut team = Team::new(None, "Babes".to_owned(), User::get_default_user());
    let stranger = User::new(None, "x".to_owned(), "X".to_owned(), false);
    assert_eq!(add_member(&mut team, stranger, &User::get_default_user()), Ok(()));
    assert_eq!(team.members.len(), 2);
}

#[test]
fn test_add_user() {
    let mut repository = repository();
    let admin_session = login(&mut repository, "roterkohl", "Flori1234").unwrap();
    let newbie = User::new(Some(0), "newbie".to_owned(), "Newbie".to_owned(), false);
    let result = repository.add_user(&admin_session, newbie);
    assert!(result.is_ok());
    let new_user_id = result.unwrap();
    assert_eq!(new_user_id, 5);
    let new_user_result = repository.get_user(new_user_id);
    assert!(new_user_result.is_some());
    assert_eq!(new_user_result.unwrap().username, "newbie");
    let user_session = Session::new(None, repository.get_user(3).unwrap(), now());
    let second = User::new(None, "second".to_owned(), "Second".to_owned(), false);
    assert_eq!(repository.add_user(&user_session, second), Err(LegacyError::NotAnAdmin));
    assert_eq!(LegacyError::NotAnAdmin.message(), "You are not an admin");
    let clash = User::new(None, "newbie".to_owned(), "Again".to_owned(), false);
    assert_eq!(repository.add_user(&admin_session, clash), Err(LegacyError::UsernameNotAvailable));
    assert_eq!(repository.users.len(), 5);
}

#[test]
fn test_login_ok() {
    let result = login(&mut repository(), "roterkohl", "Flori1234");
    assert!(result.is_ok());
    assert_eq!(30, result.unwrap().session_id.len());
}

#[test]
fn test_login_missing_user() {
    let result = login(&mut repository(), "blauerkohl", "Flori1234");
    assert!(result.is_err());
    let err = result.err();
    assert_eq!("User does not exist", err.unwrap().message());
}

#[test]
fn test_login_wrong_password() {
    let result = login(&mut repository(), "roterkohl", "Flori5678");
    assert!(result.is_err());
    let err = result.err();
    assert_eq!("Password mismatch", err.unwrap().message());
}

#[test]
fn test_logout_ok() {
    let mut repository = repository();
    let user_session = login(&mut repository, "dliwespf", "Franki1234").unwrap();
    let result = repository.logout(&user_session.session_id);
    assert!(result.is_ok());
    assert!(repository.sessions.is_empty());
}

#[test]
fn test_logout_not_logged_in() {
    let mut repository = repository();
    login(&mut repository, "dliwespf", "Franki1234").unwrap();
    let result = repository.logout(&"&USER_SESSION.id".to_owned());
    assert!(result.is_err());
    assert_eq!("Session unknown", result.unwrap_err().message());
    assert_eq!(repository.sessions.len(), 1);
}

#[test]
fn store_is_set_up_with_the_points_of_the_first_scores() {
    let repository = repository();
    let points: Vec<u16> = repository.users.iter().map(|u| u.points).collect();
    assert_eq!(points, vec![157, 137, 0, 375]);
    let scores: Vec<usize> = repository.users.iter().map(|u| u.scores.len()).collect();
    assert_eq!(scores, vec![5, 3, 0, 5]);
    assert_eq!(repository.tasks[2].name, "Spülmaschine ausräumen");
    assert!(!repository.tasks[1].enabled);
    assert!(repository.sessions.is_empty());
    assert!(repository.teams.is_empty());
    assert!(repository.users.iter().all(|u| u.pwd_hash.is_some()));
}

#[test]
fn points_that_do_not_fit_are_refused() {
    let mut rich = User::new(Some(1), "rich".to_owned(), "Rich".to_owned(), false);
    rich.points = 65500;
    rich.pwd_hash = Some("garbage".to_owned());
    let task = Task { id: Some(1), name: "Big".to_owned(), points: 36, enabled: true };
    let small = Task { id: Some(2), name: "Small".to_owned(), points: 35, enabled: true };
    let mut repository =
        LegacyRepository { users: vec![rich], sessions: vec![], tasks: vec![task, small], teams: vec![] };
    assert_eq!(repository.score(1, 1, now()), Err(LegacyError::Overflow));
    assert_eq!(repository.users[0].points, 65500);
    assert_eq!(repository.score(1, 2, now()), Ok(65535));
    assert_eq!(repository.users[0].scores.len(), 1);
    assert_eq!(
        login(&mut repository, "rich", "secret").err(),
        Some(LegacyError::BrokenPasswordHash)
    );
    let mut last = User::new(Some(u32::MAX), "last".to_owned(), "Last".to_owned(), false);
    last.points = 1;
    repository.users.push(last);
    let late = User::new(None, "late".to_owned(), "Late".to_owned(), false);
    assert_eq!(repository.add_user_private(late).err(), Some(LegacyError::Overflow));
    assert_eq!(repository.users.len(), 2);
    assert_eq!(LegacyError::Overflow.message(), "Number out of range");
    assert_eq!(LegacyError::BrokenPasswordHash.message(), "Stored password cannot be checked");
    assert_eq!(LegacyError::PasswordNotHashed.message(), "Password could not be hashed");
    assert_eq!(LegacyError::TeamDoesNotExist.message(), "Team does not exist");
    assert_eq!(LegacyError::AlreadyMember.message(), "User is already member of the team");
    assert_eq!(
        LegacyError::NotAuthorized.message(),
        "User is not authorized to add users to the team"
    );
}

#[test]
fn store_is_set_up_from_the_four_hashes() {
    let hash = |text: &str| Some(text.to_owned());
    let repository =
        LegacyRepository::init_with_hashes(hash("h1"), hash("h2"), hash("h3"), hash("h4"), now())
            .unwrap();
    let names: Vec<&str> = repository.users.iter().map(|u| u.username.as_str()).collect();
    assert_eq!(names, vec!["roterkohl", "brutours.de", "dliwespf", "topher"]);
    let shown: Vec<&str> = repository.users.iter().map(|u| u.display_name.as_str()).collect();
    assert_eq!(shown, vec!["Flori", "Michi", "Franki", "Topher"]);
    let ids: Vec<Option<u32>> = repository.users.iter().map(|u| u.id).collect();
    assert_eq!(ids, vec![Some(1), Some(2), Some(3), Some(4)]);
    let admins: Vec<bool> = repository.users.iter().map(|u| u.is_admin).collect();
    assert_eq!(admins, vec![true, false, false, true]);
    let points: Vec<u16> = repository.users.iter().map(|u| u.points).collect();
    assert_eq!(points, vec![157, 137, 0, 375]);
    let hashes: Vec<Option<String>> = repository.users.iter().map(|u| u.pwd_hash.clone()).collect();
    assert_eq!(hashes, vec![hash("h1"), hash("h2"), hash("h3"), hash("h4")]);
    let tasks: Vec<(Option<u32>, &str, u16, bool)> = repository
        .tasks
        .iter()
        .map(|t| (t.id, t.name.as_str(), t.points, t.enabled))
        .collect();
    assert_eq!(
        tasks,
        vec![
            (Some(1), "Blumen gießen", 10, true),
            (Some(2), "Stunden abgeben", 30, false),
            (Some(3), "Spülmaschine ausräumen", 52, true),
            (Some(4), "Kaffee kochen", 75, true),
        ]
    );
    assert!(repository.sessions.is_empty());
    assert!(repository.teams.is_empty());
    assert!(LegacyRepository::init_with_hashes(None, hash("h2"), hash("h3"), hash("h4"), now())
        .is_none());
    assert!(LegacyRepository::init_with_hashes(hash("h1"), None, hash("h3"), hash("h4"), now())
        .is_none());
    assert!(LegacyRepository::init_with_hashes(hash("h1"), hash("h2"), None, hash("h4"), now())
        .is_none());
    assert!(LegacyRepository::init_with_hashes(hash("h1"), hash("h2"), hash("h3"), None, now())
        .is_none());
}

#[test]
fn seeded_user_carries_the_hash_it_was_given() {
    let user = seeded_user_with_hash(9, "newbie", "Newbie", Some("h".to_owned()), true).unwrap();
    assert_eq!(user.id, Some(9));
    assert_eq!(user.username, "newbie");
    assert_eq!(user.display_name, "Newbie");
    assert!(user.is_admin);
    assert_eq!(user.points, 0);
    assert!(user.scores.is_empty());
    assert_eq!(user.pwd_hash, Some("h".to_owned()));
    assert!(seeded_user_with_hash(9, "newbie", "Newbie", None, true).is_none());
    let hashed = seeded_user(9, "newbie", "Newbie", "secret", false).unwrap();
    assert_eq!(hashed.username, "newbie");
    assert_eq!(hashed.verify_password(&Some("secret".to_owned())), Some(true));
    assert_eq!(hashed.verify_password(&Some("other".to_owned())), Some(false));
    let mut plain = User::new(Some(1), "a".to_owned(), "A".to_owned(), false);
    assert!(!plain.store_password_hash(None));
    assert_eq!(plain.pwd_hash, None);
    assert!(plain.store_password_hash(Some("first".to_owned())));
    assert_eq!(plain.pwd_hash, Some("first".to_owned()));
    assert!(!plain.store_password_hash(None));
    assert_eq!(plain.pwd_hash, Some("first".to_owned()));
    assert!(plain.store_password_hash(Some("second".to_owned())));
    assert_eq!(plain.pwd_hash, Some("second".to_owned()));
    assert_eq!(plain.username, "a");
}

#[test]
fn points_are_the_sum_of_the_scores_and_no_score_is_of_a_disabled_task() {
    let hash = |text: &str| Some(text.to_owned());
    let at = Timestamp { seconds: 77, nanos: 7 };
    let repository =
        LegacyRepository::init_with_hashes(hash("h1"), hash("h2"), hash("h3"), hash("h4"), at)
            .unwrap();
    for user in &repository.users {
        let sum: u16 = user.scores.iter().map(|s| s.points).sum();
        assert_eq!(user.points, sum);
        for score in &user.scores {
            assert!(score.task.enabled);
            assert_eq!(score.points, score.task.points);
            assert_eq!(score.scored_at, at);
        }
    }
    let scored: Vec<Vec<Option<u32>>> = repository
        .users
        .iter()
        .map(|u| u.scores.iter().map(|s| s.task.id).collect())
        .collect();
    assert_eq!(
        scored,
        vec![
            vec![Some(1), Some(1), Some(1), Some(4), Some(3)],
            vec![Some(1), Some(3), Some(4)],
            vec![],
            vec![Some(4), Some(4), Some(4), Some(4), Some(4)],
        ]
    );
    let mut user = User::new(Some(9), "x".to_owned(), "X".to_owned(), false);
    let disabled = Task { id: Some(2), name: "Hours".to_owned(), points: 30, enabled: false };
    let enabled = Task { id: Some(3), name: "Dishes".to_owned(), points: 52, enabled: true };
    score_if_enabled(&mut user, &disabled, at);
    assert_eq!(user.points, 0);
    assert!(user.scores.is_empty());
    score_if_enabled(&mut user, &enabled, at);
    assert_eq!(user.points, 52);
    assert_eq!(user.scores.len(), 1);
    assert_eq!(user.scores[0].points, 52);
    assert_eq!(user.scores[0].scored_at, at);
    assert_eq!(user.scores[0].task.name, "Dishes");
}
