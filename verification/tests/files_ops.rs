use triox::apps::files::copy::copy;
use triox::apps::files::create_dir::create_dir;
use triox::apps::files::get::get;
use triox::apps::files::list::list;
use triox::apps::files::mv::mv;
use triox::apps::files::remove::remove;
use triox::apps::files::store::FileStore;
use triox::apps::files::upload::upload;
use triox::apps::files::{resolve_path, Files};
use triox::api::v1::auth::{login_runner, register_runner, Login, Register};
use triox::jwt::extract_claims;
use triox::errors::ServiceError;

const USER: &str = "fileuser";
const RW: bool = false;

fn upload_ok(store: &mut FileStore, path: &str, name: &str, content: &[u8], now: u64) {
    upload(store, RW, USER, path, name, content.to_vec(), now).expect("upload should pass");
}

#[test]
fn resolve_rejects_traversal() {
    assert_eq!(
        resolve_path(USER, "../../etc/passwd"),
        Err(ServiceError::PermissionDenied)
    );
    // The guard is a substring check: a plain file name containing `..`
    // is also rejected.
    assert_eq!(resolve_path(USER, "a..b.txt"), Err(ServiceError::PermissionDenied));
}

#[test]
fn resolve_stays_under_user_root() {
    let p = resolve_path(USER, "sub/dir/file.txt").expect("resolution should pass");
    assert_eq!(p, "data/users/fileuser/files/sub/dir/file.txt");
    assert!(p.starts_with("data/users/fileuser/"));
    assert!(p.ends_with("sub/dir/file.txt"));
}

#[test]
fn files_file_works() {
    let mut store = FileStore::new();

    // A file that was never uploaded is not found.
    assert_eq!(get(&store, USER, "fakefile.txt"), Err(ServiceError::FileNotFound));
    // Escaping the user root is rejected.
    assert_eq!(get(&store, USER, "../fakefile.txt"), Err(ServiceError::PermissionDenied));

    upload_ok(&mut store, "", "test_file", b"filecontent", 100);
    assert_eq!(get(&store, USER, "test_file").unwrap(), b"filecontent");

    // create dir
    create_dir(&mut store, RW, USER, "test_dir", 110).expect("create_dir should pass");

    // copy into the new directory, then to a second name
    copy(&mut store, RW, USER, "test_file", "test_dir/test_file", 120).expect("copy should pass");
    copy(&mut store, RW, USER, "test_file", "test_file2", 130).expect("copy should pass");
    assert_eq!(get(&store, USER, "test_dir/test_file").unwrap(), b"filecontent");

    // move the second copy away
    mv(&mut store, RW, USER, "test_file2", "moved").expect("move should pass");
    assert_eq!(get(&store, USER, "test_file2"), Err(ServiceError::FileNotFound));
    assert_eq!(get(&store, USER, "moved").unwrap(), b"filecontent");

    // list the root: both files and the directory show up
    let listing = list(&store, USER, "").expect("list should pass");
    let names: Vec<&str> = listing.files.iter().map(|f| f.name.as_str()).collect();
    assert!(names.contains(&"test_file"));
    assert!(names.contains(&"moved"));
    let dirs: Vec<&str> = listing.directories.iter().map(|d| d.name.as_str()).collect();
    assert_eq!(dirs, vec!["test_dir"]);

    // remove the directory recursively
    remove(&mut store, RW, USER, "test_dir").expect("remove should pass");
    assert_eq!(get(&store, USER, "test_dir/test_file"), Err(ServiceError::FileNotFound));
}

#[test]
fn get_file_works() {
    let mut store = FileStore::new();
    assert_eq!(get(&store, USER, "fakefile.txt"), Err(ServiceError::FileNotFound));
    assert_eq!(get(&store, USER, "../fakefile.txt"), Err(ServiceError::PermissionDenied));
    upload_ok(&mut store, "", "test_file", b"filecontent", 100);
    assert_eq!(get(&store, USER, "test_file").unwrap(), b"filecontent");
}

#[test]
fn end_to_end_scenario() {
    let secret = "an unremarkable but long enough test secret";
    let mut dir = triox::database::users::UserDirectory::new();
    let mut store = FileStore::new();

    // register alice
    let form = Register {
        username: "alice".to_string(),
        password: "password123".to_string(),
        confirm_password: "password123".to_string(),
        email: Some("alice@test.com".to_string()),
    };
    register_runner(&form, &mut dir).expect("registration should pass");

    // sign in with the same credentials and obtain a token
    let login = Login { login: "alice".to_string(), password: "password123".to_string() };
    let username = login_runner(&login, &dir).expect("login should pass");
    assert_eq!(username, "alice");
    let now: u64 = 1_700_000_000;
    let signin = triox::auth::SignInForm {
        user_name: "alice".to_string(),
        password: "password123".to_string(),
    };
    let sessions = triox::database::users::LoginCount::new();
    let token = triox::auth::sign_in(&signin, &dir, &sessions, secret, now)
        .expect("sign-in should pass");

    // every file request verifies the token first
    let claims = extract_claims(&token, secret, now + 10).expect("token should verify");
    assert_eq!(claims.sub, "alice");

    // upload, read back, list, remove, list again
    upload(&mut store, RW, &claims.sub, "", "notes.txt", b"hello".to_vec(), now)
        .expect("upload should pass");
    assert_eq!(get(&store, &claims.sub, "notes.txt").unwrap(), b"hello");

    let listing = list(&store, &claims.sub, "").expect("list should pass");
    assert!(listing.files.iter().any(|f| f.name == "notes.txt" && f.size == 5));

    remove(&mut store, RW, &claims.sub, "notes.txt").expect("remove should pass");
    let listing = list(&store, &claims.sub, "").expect("list should pass");
    assert!(!listing.files.iter().any(|f| f.name == "notes.txt"));
}

#[test]
fn read_only_mode() {
    let mut store = FileStore::new();
    upload_ok(&mut store, "", "kept.txt", b"kept", 100);

    // with the read-only flag set, every mutating operation short-circuits
    let ro = true;
    assert_eq!(
        upload(&mut store, ro, USER, "", "a.txt", b"a".to_vec(), 200),
        Err(ServiceError::FSReadOnly)
    );
    assert_eq!(mv(&mut store, ro, USER, "kept.txt", "b.txt"), Err(ServiceError::FSReadOnly));
    assert_eq!(copy(&mut store, ro, USER, "kept.txt", "b.txt", 200), Err(ServiceError::FSReadOnly));
    assert_eq!(remove(&mut store, ro, USER, "kept.txt"), Err(ServiceError::FSReadOnly));
    assert_eq!(create_dir(&mut store, ro, USER, "d", 200), Err(ServiceError::FSReadOnly));
    // the read-only error maps to a 405-class status
    assert_eq!(ServiceError::FSReadOnly.status_code(), 405);

    // read operations stay available
    assert_eq!(get(&store, USER, "kept.txt").unwrap(), b"kept");
    assert!(list(&store, USER, "").is_ok());
}

#[test]
fn move_scenario() {
    let mut store = FileStore::new();
    upload_ok(&mut store, "", "a.txt", b"original content", 100);
    mv(&mut store, RW, USER, "a.txt", "b.txt").expect("move should pass");
    assert_eq!(get(&store, USER, "a.txt"), Err(ServiceError::FileNotFound));
    assert_eq!(get(&store, USER, "b.txt").unwrap(), b"original content");
}

#[test]
fn move_directory_tree() {
    let mut store = FileStore::new();
    create_dir(&mut store, RW, USER, "olddir", 100).expect("create_dir should pass");
    upload_ok(&mut store, "olddir", "inner.txt", b"inner", 110);
    mv(&mut store, RW, USER, "olddir", "newdir").expect("move should pass");
    assert_eq!(get(&store, USER, "olddir/inner.txt"), Err(ServiceError::FileNotFound));
    assert_eq!(get(&store, USER, "newdir/inner.txt").unwrap(), b"inner");
    // moving onto an occupied destination is refused
    create_dir(&mut store, RW, USER, "other", 120).expect("create_dir should pass");
    assert_eq!(mv(&mut store, RW, USER, "other", "newdir"), Err(ServiceError::FileExists));
}

#[test]
fn copy_duplicates_directory_trees() {
    let mut store = FileStore::new();
    create_dir(&mut store, RW, USER, "somedir", 100).expect("create_dir should pass");
    upload_ok(&mut store, "somedir", "inner.txt", b"inner", 110);
    copy(&mut store, RW, USER, "somedir", "elsewhere", 120).expect("copy should pass");
    // both trees hold the file now, and the copy carries the copy time
    assert_eq!(get(&store, USER, "somedir/inner.txt").unwrap(), b"inner");
    assert_eq!(get(&store, USER, "elsewhere/inner.txt").unwrap(), b"inner");
    let listing = list(&store, USER, "elsewhere").expect("list should pass");
    assert!(listing.files.iter().any(|f| f.name == "inner.txt" && f.last_modified == 120));
    // an occupied destination is refused
    assert_eq!(
        copy(&mut store, RW, USER, "somedir", "elsewhere", 130),
        Err(ServiceError::FileExists)
    );
    assert_eq!(
        copy(&mut store, RW, USER, "missing.txt", "nowhere", 140),
        Err(ServiceError::FileNotFound)
    );
    // a file never overwrites a directory
    upload_ok(&mut store, "", "plain.txt", b"plain", 150);
    assert_eq!(
        copy(&mut store, RW, USER, "plain.txt", "somedir", 160),
        Err(ServiceError::FileExists)
    );
}

#[test]
fn create_dir_is_idempotent() {
    let mut store = FileStore::new();
    create_dir(&mut store, RW, USER, "d", 100).expect("create_dir should pass");
    create_dir(&mut store, RW, USER, "d", 110).expect("creating it again should pass");
    let listing = list(&store, USER, "").expect("list should pass");
    assert_eq!(listing.directories.len(), 1);
    upload_ok(&mut store, "", "f.txt", b"x", 120);
    assert_eq!(create_dir(&mut store, RW, USER, "f.txt", 130), Err(ServiceError::FileExists));
}

#[test]
fn create_dir_records_missing_segments() {
    let mut store = FileStore::new();
    create_dir(&mut store, RW, USER, "a/b/c", 100).expect("create_dir should pass");
    // every segment on the way exists, so each level lists the next
    let root = list(&store, USER, "").expect("list should pass");
    assert!(root.directories.iter().any(|d| d.name == "a"));
    let a = list(&store, USER, "a").expect("list should pass");
    assert!(a.directories.iter().any(|d| d.name == "b"));
    let ab = list(&store, USER, "a/b").expect("list should pass");
    assert!(ab.directories.iter().any(|d| d.name == "c"));
    // a file standing in for a segment is a conflict
    upload_ok(&mut store, "", "x.txt", b"x", 110);
    assert_eq!(
        create_dir(&mut store, RW, USER, "x.txt/sub", 120),
        Err(ServiceError::FileExists)
    );
}

#[test]
fn upload_rejects_traversal_in_filenames() {
    let mut store = FileStore::new();
    assert_eq!(
        upload(&mut store, RW, USER, "", "../evil.txt", b"x".to_vec(), 100),
        Err(ServiceError::PermissionDenied)
    );
    assert_eq!(
        upload(&mut store, RW, USER, "../dir", "ok.txt", b"x".to_vec(), 100),
        Err(ServiceError::PermissionDenied)
    );
}

#[test]
fn upload_overwrites() {
    let mut store = FileStore::new();
    upload_ok(&mut store, "", "f.txt", b"one", 100);
    upload_ok(&mut store, "", "f.txt", b"two", 110);
    assert_eq!(get(&store, USER, "f.txt").unwrap(), b"two");
}

#[test]
fn list_nested_directories() {
    let mut store = FileStore::new();
    create_dir(&mut store, RW, USER, "sub", 100).expect("create_dir should pass");
    upload_ok(&mut store, "sub", "deep.txt", b"deep", 110);
    // the nested file shows up under its directory, not at the root
    let root = list(&store, USER, "").expect("list should pass");
    assert!(!root.files.iter().any(|f| f.name == "deep.txt"));
    let sub = list(&store, USER, "sub").expect("list should pass");
    assert!(sub.files.iter().any(|f| f.name == "deep.txt" && f.size == 4 && f.last_modified == 110));
    // a trailing separator on the query path is accepted
    let sub2 = list(&store, USER, "sub/").expect("list should pass");
    assert!(sub2.files.iter().any(|f| f.name == "deep.txt"));
    // a directory that never existed is not found
    assert_eq!(list(&store, USER, "nowhere").unwrap_err(), ServiceError::FileNotFound);
}

#[test]
fn route_tables() {
    let files = Files::new();
    assert_eq!(files.get, "/app/files/get");
    assert_eq!(files.list, "/app/files/list");
    assert_eq!(files.upload, "/app/files/upload");
    assert_eq!(files.mv, "/app/files/move");
    assert_eq!(files.copy, "/app/files/copy");
    assert_eq!(files.remove, "/app/files/remove");
    assert_eq!(files.create_dir, "/app/files/create_dir");

    let routes = triox::api::v1::Routes::new();
    assert_eq!(routes.auth.login, "/api/v1/signin");
    assert_eq!(routes.auth.logout, "/logout");
    assert_eq!(routes.auth.register, "/api/v1/signup");
    assert_eq!(routes.meta.build_details, "/api/v1/meta/build");
    assert_eq!(routes.meta.health, "/api/v1/meta/health");
}
