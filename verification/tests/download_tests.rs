use local_gist::download::{dest_dir, download_plan};
use local_gist::gist::{Gist, GistFile, GistOwner};

fn owner(login: &str) -> GistOwner {
    GistOwner {
        login: login.to_string(),
        id: 1,
        node_id: String::new(),
        avatar_url: String::new(),
        gravatar_id: String::new(),
        url: String::new(),
        html_url: String::new(),
        followers_url: String::new(),
        following_url: String::new(),
        gists_url: String::new(),
        starred_url: String::new(),
        subscriptions_url: String::new(),
        organizations_url: String::new(),
        repos_url: String::new(),
        events_url: String::new(),
        received_events_url: String::new(),
        user_type: "User".to_string(),
        site_admin: false,
        user_view_type: "public".to_string(),
    }
}

fn file(name: &str, url: &str) -> GistFile {
    GistFile {
        filename: name.to_string(),
        file_type: "text/plain".to_string(),
        language: None,
        raw_url: url.to_string(),
        size: 10,
    }
}

fn gist_with(id: &str, description: Option<&str>, files: Vec<GistFile>) -> Gist {
    Gist {
        url: String::new(),
        forks_url: String::new(),
        commits_url: String::new(),
        id: id.to_string(),
        node_id: String::new(),
        git_pull_url: String::new(),
        git_push_url: String::new(),
        html_url: String::new(),
        files,
        public: true,
        created_at: String::new(),
        updated_at: String::new(),
        description: description.map(|d| d.to_string()),
        comments: 0,
        user: None,
        comments_enabled: true,
        comments_url: String::new(),
        owner: owner("octocat"),
        truncated: false,
    }
}

#[test]
fn destination_is_root_slash_id() {
    assert_eq!(dest_dir("gists", "abc123"), "gists/abc123");
}

#[test]
fn plan_names_every_file_inside_the_gist_directory() {
    let g = gist_with(
        "abc123",
        None,
        vec![
            file("notes.txt", "https://example.com/raw/notes.txt"),
            file("main.rs", "https://example.com/raw/main.rs"),
        ],
    );
    let plan = download_plan(&g, "out");
    assert_eq!(plan.dir, "out/abc123");
    assert_eq!(plan.fetches.len(), 2);
    assert_eq!(plan.fetches[0].url, "https://example.com/raw/notes.txt");
    assert_eq!(plan.fetches[0].dest, "out/abc123/notes.txt");
    assert_eq!(plan.fetches[1].url, "https://example.com/raw/main.rs");
    assert_eq!(plan.fetches[1].dest, "out/abc123/main.rs");
}

#[test]
fn rerunning_the_plan_names_the_same_files() {
    let g = gist_with("abc123", None, vec![file("a.txt", "https://example.com/a")]);
    let first = download_plan(&g, "out");
    let second = download_plan(&g, "out");
    assert_eq!(first.dir, second.dir);
    assert_eq!(first.fetches.len(), second.fetches.len());
    assert_eq!(first.fetches[0].dest, second.fetches[0].dest);
    assert_eq!(first.fetches[0].url, second.fetches[0].url);
}

#[test]
fn display_shows_id_description_and_files() {
    let g = gist_with(
        "abc123",
        Some("my snippets"),
        vec![
            file("a.txt", "https://example.com/a"),
            file("b.txt", "https://example.com/b"),
        ],
    );
    assert_eq!(g.display_string(), "abc123 - my snippets (a.txt, b.txt)");
}

#[test]
fn display_uses_placeholder_without_description() {
    let g = gist_with("abc123", None, vec![file("a.txt", "https://example.com/a")]);
    assert_eq!(g.display_string(), "abc123 - <no description> (a.txt)");
}

#[test]
fn display_with_no_files_shows_empty_parens() {
    let g = gist_with("zz", Some("d"), Vec::new());
    assert_eq!(g.display_string(), "zz - d ()");
}
