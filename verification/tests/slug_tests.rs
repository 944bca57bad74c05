use kernel_ci_center::slug::repo_slug;

#[test]
fn slug_of_ssh_url() {
    assert_eq!(repo_slug("git@github.com:OWNER/NAME.git").as_deref(), Some("OWNER/NAME"));
}

#[test]
fn slug_of_https_url() {
    assert_eq!(repo_slug("https://github.com/OWNER/NAME.git").as_deref(), Some("OWNER/NAME"));
}

#[test]
fn slug_without_git_suffix() {
    assert_eq!(repo_slug("https://github.com/yucca/kernel_samsung_sm8750").as_deref(), Some("yucca/kernel_samsung_sm8750"));
}

#[test]
fn slug_trims_white_space_and_repeated_suffix() {
    assert_eq!(repo_slug("  https://github.com/a/b.git.git\n").as_deref(), Some("a/b"));
    assert_eq!(repo_slug("\u{3000}git@github.com:a/b.git\u{a0}").as_deref(), Some("a/b"));
}

#[test]
fn slug_uses_last_host() {
    assert_eq!(repo_slug("https://github.com/x/github.com/o/n").as_deref(), Some("o/n"));
}

#[test]
fn slug_keeps_empty_pieces() {
    assert_eq!(repo_slug("https://github.com/a//b/").as_deref(), Some("a//b/"));
    assert_eq!(repo_slug("github.com:::/a/b").as_deref(), Some("a/b"));
}

#[test]
fn slug_refuses_other_shapes() {
    assert_eq!(repo_slug("https://github.com/owner"), None);
    assert_eq!(repo_slug("https://github.com/a/b/c.git"), None);
    assert_eq!(repo_slug("https://gitlab.com/a/b.git"), None);
    assert_eq!(repo_slug(""), None);
    assert_eq!(repo_slug("   "), None);
}

#[test]
fn slug_without_host_counts_whole_url() {
    assert_eq!(repo_slug("owner/name").as_deref(), Some("owner/name"));
}

#[test]
fn slug_of_a_slug_is_itself() {
    for u in [
        "git@github.com:OWNER/NAME.git",
        "https://github.com/a//b/",
        "github.com:::/a/b",
        "https://github.com/x/github.com/o/n",
        "owner/name",
    ] {
        let s = repo_slug(u).unwrap();
        assert_eq!(s.trim(), s);
        assert!(!s.starts_with(':') && !s.starts_with('/') && !s.contains("github.com") && !s.ends_with(".git"));
        assert_eq!(repo_slug(&s), Some(s.clone()));
    }
}
