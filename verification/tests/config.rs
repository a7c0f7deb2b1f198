use git_repository as git;
use git_repository::config::tree::keys::validate;
use git_repository::config::tree::keys::{self, Validate};
use git_repository::config::tree::registry::Descriptor;
use git_repository::config::tree::{branch, checkout, gitoxide, Branch, Checkout, Remote, User};
use git_repository::config::tree::{Key, KeyError, KeyId, Link, Section, SectionId, SubSectionRequirement};
use git_repository::date;
use git_repository::date::DateError;

#[test]
fn any() {
    assert!(
        git::config::Tree.sections().len() > 0,
        "the root has at least one section"
    );
    assert_eq!(git::config::Tree::AUTHOR.name(), "author");
    assert_eq!(git::config::tree::Author.keys().len(), 2);
    assert_eq!(git::config::tree::Author::NAME.name(), "name");
    assert_eq!(git::config::tree::Author::EMAIL.name(), "email");
    assert_eq!(
        git::config::tree::Author::NAME
            .validated_assignment("user".as_bytes())
            .unwrap(),
        "author.name=user".as_bytes()
    );
    assert_eq!(
        git::config::tree::Author::NAME
            .validated_assignment("user".as_bytes())
            .unwrap(),
        "author.name=user".as_bytes()
    );
}

#[test]
fn remote_name() {
    assert!(git::config::tree::Remote::PUSH_DEFAULT
        .validate("origin".as_bytes())
        .is_ok());
    assert!(git::config::tree::Remote::PUSH_DEFAULT
        .validate("https://github.com/byron/gitoxide".as_bytes())
        .is_ok());
}

#[test]
fn merge() {
    assert!(branch::Merge::try_into_fullrefname("refs/heads/main".as_bytes()).is_ok());
    assert!(branch::Merge::try_into_fullrefname("main".as_bytes()).is_err());

    assert!(Branch::MERGE.full_name(None).is_err());
    assert_eq!(
        Branch::MERGE.full_name(Some("name".as_bytes())).expect("valid"),
        "branch.name.merge".as_bytes()
    );
}

#[test]
fn author_and_committer_date() {
    assert_eq!(
        gitoxide::Commit::AUTHOR_DATE
            .validated_assignment("Thu, 1 Aug 2022 12:45:06 +0800".as_bytes())
            .expect("valid"),
        "gitoxide.commit.authorDate=Thu, 1 Aug 2022 12:45:06 +0800".as_bytes()
    );
    assert_eq!(
        gitoxide::Commit::COMMITTER_DATE
            .validated_assignment("Thu, 1 Aug 2022 12:45:06 +0800".as_bytes())
            .expect("valid"),
        "gitoxide.commit.committerDate=Thu, 1 Aug 2022 12:45:06 +0800".as_bytes()
    );
}

#[test]
fn name_and_email_fallback() {
    assert_eq!(
        gitoxide::Author::NAME_FALLBACK
            .validated_assignment("name".as_bytes())
            .expect("valid"),
        "gitoxide.author.nameFallback=name".as_bytes()
    );
    assert_eq!(
        gitoxide::Author::EMAIL_FALLBACK
            .validated_assignment("email".as_bytes())
            .expect("valid"),
        "gitoxide.author.emailFallback=email".as_bytes()
    );
}

#[test]
fn mod_name_and_email_fallback() {
    assert_eq!(
        gitoxide::Committer::NAME_FALLBACK
            .validated_assignment("name".as_bytes())
            .expect("valid"),
        "gitoxide.committer.nameFallback=name".as_bytes()
    );
    assert_eq!(
        gitoxide::Committer::EMAIL_FALLBACK
            .validated_assignment("email".as_bytes())
            .expect("valid"),
        "gitoxide.committer.emailFallback=email".as_bytes()
    );
}

const ALL_KEYS: [KeyId; 15] = [
    KeyId::AuthorName,
    KeyId::AuthorEmail,
    KeyId::BranchMerge,
    KeyId::CheckoutWorkers,
    KeyId::CommitterName,
    KeyId::CommitterEmail,
    KeyId::GitoxideAuthorNameFallback,
    KeyId::GitoxideAuthorEmailFallback,
    KeyId::GitoxideCommitterNameFallback,
    KeyId::GitoxideCommitterEmailFallback,
    KeyId::GitoxideCommitAuthorDate,
    KeyId::GitoxideCommitCommitterDate,
    KeyId::RemotePushDefault,
    KeyId::UserName,
    KeyId::UserEmail,
];

#[test]
fn logical_names_of_all_keys() {
    let names: Vec<String> = ALL_KEYS.iter().map(|key| key.logical_name()).collect();
    assert_eq!(
        names,
        vec![
            "author.name",
            "author.email",
            "branch.<name>.merge",
            "checkout.workers",
            "committer.name",
            "committer.email",
            "gitoxide.author.nameFallback",
            "gitoxide.author.emailFallback",
            "gitoxide.committer.nameFallback",
            "gitoxide.committer.emailFallback",
            "gitoxide.commit.authorDate",
            "gitoxide.commit.committerDate",
            "remote.pushDefault",
            "user.name",
            "user.email",
        ]
    );
}

#[test]
fn environment_overrides_of_all_keys() {
    let keys = ALL_KEYS;
    let overrides: Vec<Option<&str>> = keys.iter().map(|key| key.environment_override()).collect();
    assert_eq!(
        overrides,
        vec![
            Some("GIT_AUTHOR_NAME"),
            Some("GIT_AUTHOR_EMAIL"),
            None,
            None,
            Some("GIT_COMMITTER_NAME"),
            Some("GIT_COMMITTER_EMAIL"),
            Some("GIT_AUTHOR_NAME"),
            Some("GIT_AUTHOR_EMAIL"),
            Some("GIT_COMMITTER_NAME"),
            Some("GIT_COMMITTER_EMAIL"),
            Some("GIT_AUTHOR_DATE"),
            Some("GIT_COMMITTER_DATE"),
            None,
            None,
            None,
        ]
    );
}

#[test]
fn typed_keys_agree_with_their_identifiers() {
    fn check<K: Key>(key: K, id: KeyId) {
        assert_eq!(key.name(), id.name());
        assert_eq!(key.section(), id.section());
        assert_eq!(key.logical_name(), id.logical_name());
        assert_eq!(key.environment_override(), id.environment_override());
        assert_eq!(key.full_name(None).ok(), id.full_name(None).ok());
    }
    check(git::config::tree::Author::name_key(), KeyId::AuthorName);
    check(git::config::tree::Author::email_key(), KeyId::AuthorEmail);
    check(Branch::merge_key(), KeyId::BranchMerge);
    check(git::config::tree::Committer::name_key(), KeyId::CommitterName);
    check(git::config::tree::Committer::email_key(), KeyId::CommitterEmail);
    check(gitoxide::Author::name_fallback_key(), KeyId::GitoxideAuthorNameFallback);
    check(gitoxide::Author::email_fallback_key(), KeyId::GitoxideAuthorEmailFallback);
    check(gitoxide::Committer::name_fallback_key(), KeyId::GitoxideCommitterNameFallback);
    check(gitoxide::Committer::email_fallback_key(), KeyId::GitoxideCommitterEmailFallback);
    check(gitoxide::Commit::author_date_key(), KeyId::GitoxideCommitAuthorDate);
    check(gitoxide::Commit::committer_date_key(), KeyId::GitoxideCommitCommitterDate);
    check(Remote::push_default_key(), KeyId::RemotePushDefault);
    check(User::name_key(), KeyId::UserName);
    check(User::email_key(), KeyId::UserEmail);
    check(Checkout::workers_key(), KeyId::CheckoutWorkers);
}

#[test]
fn builders_set_one_field_each() {
    let key = keys::Any::new("bare", SectionId::User);
    assert_eq!(key.name, "bare");
    assert_eq!(key.section, SectionId::User);
    assert!(matches!(key.subsection_requirement, Some(SubSectionRequirement::Never)));
    assert!(key.link.is_none());

    let key = key.with_subsection_requirement(None);
    assert!(key.subsection_requirement.is_none());
    assert_eq!(key.name, "bare");

    let key = key.with_environment_override("GIT_BARE");
    assert!(matches!(key.link, Some(Link::EnvironmentOverride("GIT_BARE"))));
    assert_eq!(key.environment_override(), Some("GIT_BARE"));

    let key = key.with_fallback(KeyId::UserName);
    assert!(matches!(key.link, Some(Link::FallbackKey(KeyId::UserName))));
    assert_eq!(key.environment_override(), None);

    let key = key.with_fallback(KeyId::CommitterEmail);
    assert_eq!(key.environment_override(), Some("GIT_COMMITTER_EMAIL"));
    let Descriptor { name, section, subsection_requirement, link } = key.descriptor();
    assert_eq!((name, section), ("bare", SectionId::User));
    assert!(subsection_requirement.is_none());
    assert!(matches!(link, Some(Link::FallbackKey(KeyId::CommitterEmail))));
}

#[test]
fn subsections_may_be_used_where_nothing_is_required() {
    let key = keys::Any::new("url", SectionId::Remote).with_subsection_requirement(None);
    assert_eq!(key.logical_name(), "remote.url");
    assert_eq!(key.full_name(None).unwrap(), b"remote.url".to_vec());
    assert_eq!(key.full_name(Some(b"origin")).unwrap(), b"remote.origin.url".to_vec());
    assert_eq!(
        key.validated_assignment_with_subsection(b"https://host/repo", b"origin").unwrap(),
        b"remote.origin.url=https://host/repo".to_vec()
    );
}

#[test]
fn unnamed_parameter_does_not_show_in_the_logical_name() {
    let key = keys::Any::new("merge", SectionId::Branch)
        .with_subsection_requirement(Some(SubSectionRequirement::Always { parameter: None }));
    assert_eq!(key.logical_name(), "branch.merge");
    assert!(key.full_name(None).is_err());
}

#[test]
fn subsection_where_none_may_be_used() {
    match User::NAME.full_name(Some(b"sub")) {
        Err(KeyError::SubsectionForbidden { message }) => {
            assert_eq!(message, "The key named 'user.name' cannot be used with non-static subsections.")
        }
        _ => unreachable!("the key takes no subsection"),
    }
    match gitoxide::Author::NAME_FALLBACK.validated_assignment_with_subsection(b"value", b"sub") {
        Err(KeyError::SubsectionForbidden { message }) => assert_eq!(
            message,
            "The key named 'gitoxide.author.nameFallback' cannot be used with non-static subsections."
        ),
        _ => unreachable!("the key takes no subsection"),
    }
}

#[test]
fn missing_subsection_where_one_is_required() {
    match Branch::MERGE.full_name(None) {
        Err(KeyError::SubsectionRequired { message }) => {
            assert_eq!(message, "The key named 'branch.<name>.merge' cannot be used without subsections.")
        }
        _ => unreachable!("the key needs a subsection"),
    }
    match Branch::MERGE.validated_assignment(b"refs/heads/main") {
        Err(KeyError::SubsectionRequired { message }) => {
            assert_eq!(message, "The key named 'branch.<name>.merge' cannot be used without subsections.")
        }
        _ => unreachable!("the key needs a subsection"),
    }
    assert_eq!(
        Branch::MERGE.validated_assignment_with_subsection(b"refs/heads/main", b"main").unwrap(),
        b"branch.main.merge=refs/heads/main".to_vec()
    );
}

#[test]
fn validation_comes_before_naming() {
    assert!(matches!(
        Branch::MERGE.validated_assignment(b"main"),
        Err(KeyError::ReferenceName(_))
    ));
    assert!(matches!(
        Branch::MERGE.validated_assignment_with_subsection(b"refs/heads/..", b"main"),
        Err(KeyError::ReferenceName(_))
    ));
}

#[test]
fn subsection_bytes_are_taken_as_they_are() {
    assert_eq!(
        Branch::MERGE.full_name(Some(b"a.b \xff")).unwrap(),
        b"branch.a.b \xff.merge".to_vec()
    );
    assert_eq!(Branch::MERGE.full_name(Some(b"")).unwrap(), b"branch..merge".to_vec());
}

#[test]
fn full_names_below_sub_sections() {
    assert_eq!(
        gitoxide::Commit::AUTHOR_DATE.full_name(None).unwrap(),
        b"gitoxide.commit.authorDate".to_vec()
    );
    assert_eq!(
        gitoxide::Committer::EMAIL_FALLBACK.full_name(None).unwrap(),
        b"gitoxide.committer.emailFallback".to_vec()
    );
}

#[test]
fn sections_and_their_keys() {
    let tree = git::config::Tree;
    assert_eq!(
        tree.sections(),
        vec![
            SectionId::Author,
            SectionId::Branch,
            SectionId::Checkout,
            SectionId::Committer,
            SectionId::Gitoxide,
            SectionId::Remote,
            SectionId::User,
        ]
    );
    let sections = tree.sections();
    let names: Vec<&str> = sections.iter().map(|section| section.name()).collect();
    assert_eq!(names, vec!["author", "branch", "checkout", "committer", "gitoxide", "remote", "user"]);
    assert_eq!(git::config::Tree::USER.keys(), vec![KeyId::UserName, KeyId::UserEmail]);
    assert_eq!(git::config::Tree::REMOTE.keys(), vec![KeyId::RemotePushDefault]);
    assert_eq!(git::config::Tree::CHECKOUT.keys(), vec![KeyId::CheckoutWorkers]);
    assert_eq!(git::config::Tree::BRANCH.keys(), vec![KeyId::BranchMerge]);
    assert_eq!(git::config::Tree::COMMITTER.keys(), vec![KeyId::CommitterName, KeyId::CommitterEmail]);
    assert!(git::config::Tree::GITOXIDE.keys().is_empty());
    for section in tree.sections() {
        assert!(section.parent().is_none());
        for key in section.keys() {
            assert_eq!(key.section(), section);
        }
    }
}

#[test]
fn sub_sections_know_their_parent() {
    assert_eq!(
        git::config::Tree::GITOXIDE.sub_sections(),
        vec![SectionId::GitoxideAuthor, SectionId::GitoxideCommit, SectionId::GitoxideCommitter]
    );
    assert_eq!(git::config::tree::Gitoxide::AUTHOR.name(), "author");
    assert_eq!(git::config::tree::Gitoxide::COMMIT.name(), "commit");
    assert_eq!(git::config::tree::Gitoxide::COMMITTER.name(), "committer");
    for section in SectionId::Gitoxide.sub_sections() {
        assert_eq!(section.parent(), Some(SectionId::Gitoxide));
        assert!(section.sub_sections().is_empty());
    }
    assert_eq!(
        SectionId::GitoxideAuthor.keys(),
        vec![KeyId::GitoxideAuthorNameFallback, KeyId::GitoxideAuthorEmailFallback]
    );
    assert_eq!(
        gitoxide::Committer.keys(),
        vec![KeyId::GitoxideCommitterNameFallback, KeyId::GitoxideCommitterEmailFallback]
    );
    assert!(gitoxide::Commit.keys().is_empty());
    assert!(User.sub_sections().is_empty());
    assert!(User.parent().is_none());
}

#[test]
fn validate_any_hands_the_value_back() {
    assert_eq!(User::NAME.validate_any(b"a value".to_vec()), b"a value".to_vec());
}

#[test]
fn everything_is_valid_for_unconstrained_keys() {
    assert!(validate::All.validate(b"").is_ok());
    assert!(validate::All.validate(b"\xff\xfe").is_ok());
    assert!(User::EMAIL.validate(b"\xff").is_ok());
}

#[test]
fn remote_name_is_a_url_or_text() {
    assert!(validate::RemoteName.validate(b".").is_ok());
    assert!(validate::RemoteName.validate(b"").is_ok());
    assert!(validate::RemoteName.validate(b"../\xff").is_ok());
    assert!(validate::RemoteName.validate("höst".as_bytes()).is_ok());
    match validate::RemoteName.validate(b"orig\xffin") {
        Err(KeyError::IllformedRemoteName { message }) => {
            assert_eq!(message, "Illformed UTF-8 in remote name: \"orig\u{FFFD}in\"")
        }
        _ => unreachable!("neither a url nor text"),
    }
    match Remote::PUSH_DEFAULT.validated_assignment(b"\xff") {
        Err(KeyError::IllformedRemoteName { message }) => {
            assert_eq!(message, "Illformed UTF-8 in remote name: \"\u{FFFD}\"")
        }
        _ => unreachable!("neither a url nor text"),
    }
}

#[test]
fn dates_are_validated() {
    assert!(validate::Time.validate(b"Thu, 1 Aug 2022 12:45:06 +0800").is_ok());
    assert!(validate::Time.validate(b"1660874655 +0800").is_ok());
    assert!(validate::Time.validate(b"2 weeks ago").is_ok());
    assert!(matches!(
        validate::Time.validate(b"no date"),
        Err(KeyError::Date(DateError::InvalidDateString))
    ));
    assert!(matches!(
        validate::Time.validate(b"-2 weeks ago"),
        Err(KeyError::Date(DateError::InvalidDate))
    ));
    match validate::Time.validate(b"2022-08-\xff") {
        Err(KeyError::IllformedUtf8(error)) => assert_eq!(error.valid_up_to(), 8),
        _ => unreachable!("no text"),
    }
    assert!(matches!(
        gitoxide::Commit::AUTHOR_DATE.validated_assignment(b"yesterday-ish"),
        Err(KeyError::Date(DateError::InvalidDateString))
    ));
}

#[test]
fn values_become_times() {
    let key = gitoxide::Commit::author_date_key();
    assert_eq!(
        key.try_into_time(b"1979-02-26 18:30:00", None),
        Ok(date::Time { seconds_since_unix_epoch: 42, offset_in_seconds: 1800, sign: date::Sign::Plus })
    );
    assert_eq!(
        key.try_into_time(b"1660874655 -0230", None),
        Ok(date::Time {
            seconds_since_unix_epoch: 1660874655,
            offset_in_seconds: -9000,
            sign: date::Sign::Minus
        })
    );
    assert_eq!(
        key.try_into_time(b"Thu, 18 Aug 2022 12:45:06 +0800", None),
        Ok(date::Time { seconds_since_unix_epoch: 1660797906, offset_in_seconds: 28800, sign: date::Sign::Plus })
    );
    assert_eq!(key.try_into_time(b"2 weeks ago", None), Err(DateError::MissingCurrentTime));
    assert_eq!(key.try_into_time(b"\xff", None), Err(DateError::InvalidDateString));
    assert_eq!(key.try_into_time(b"garbage", None), Err(DateError::InvalidDateString));

    let now = std::time::SystemTime::UNIX_EPOCH + std::time::Duration::from_secs(1_000_000_000);
    assert_eq!(
        key.try_into_time(b"2 weeks ago", Some(now)),
        Ok(date::Time {
            seconds_since_unix_epoch: 1_000_000_000 - 14 * 24 * 60 * 60,
            offset_in_seconds: 0,
            sign: date::Sign::Plus
        })
    );
    assert_eq!(
        key.try_into_time(b"1979-02-26 18:30:00", Some(now)),
        key.try_into_time(b"1979-02-26 18:30:00", None)
    );
}

#[test]
fn reference_names_are_validated() {
    assert!(branch::validate::FullNameRef.validate(b"refs/heads/main").is_ok());
    assert!(branch::validate::FullNameRef.validate(b"HEAD").is_ok());
    assert!(matches!(
        branch::validate::FullNameRef.validate(b"main"),
        Err(KeyError::ReferenceName(_))
    ));
    assert!(matches!(branch::validate::FullNameRef.validate(b""), Err(KeyError::ReferenceName(_))));
    assert_eq!(
        branch::Merge::try_into_fullrefname(b"refs/tags/v1.0").unwrap(),
        b"refs/tags/v1.0".to_vec()
    );
}

#[test]
fn thread_counts_cannot_be_validated() {
    assert!(matches!(checkout::Workers::try_into_thread_count(b"4"), Err(KeyError::Unsupported)));
    assert!(matches!(checkout::validate::Workers.validate(b"4"), Err(KeyError::Unsupported)));
    assert!(matches!(Checkout::WORKERS.validate(b"0"), Err(KeyError::Unsupported)));
    assert!(matches!(Checkout::WORKERS.validated_assignment(b"0"), Err(KeyError::Unsupported)));
    assert_eq!(Checkout::WORKERS.full_name(None).unwrap(), b"checkout.workers".to_vec());
}

#[test]
fn relative_dates_before_the_epoch_are_too_early() {
    let key = gitoxide::Commit::committer_date_key();
    let now = std::time::SystemTime::UNIX_EPOCH + std::time::Duration::from_secs(1_000_000_000);
    assert_eq!(
        key.try_into_time(b"100000 weeks ago", Some(now)),
        Err(DateError::TooEarly { timestamp: 1_000_000_000 - 100_000 * 7 * 24 * 60 * 60 })
    );
    assert_eq!(key.try_into_time(b"-1 second ago", Some(now)), Err(DateError::InvalidDate));
    assert_eq!(key.try_into_time(b"-1 second ago", None), Err(DateError::InvalidDate));
    assert_eq!(key.try_into_time(b"1 fortnight ago", Some(now)), Err(DateError::InvalidDateString));
}

#[test]
fn relative_dates_out_of_range_cannot_be_converted() {
    let key = gitoxide::Commit::committer_date_key();
    let now = std::time::SystemTime::UNIX_EPOCH + std::time::Duration::from_secs(1_000_000_000);
    assert_eq!(
        key.try_into_time(b"9000000000000 weeks ago", Some(now)),
        Err(DateError::RelativeTimeConversion)
    );
}
