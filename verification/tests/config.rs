use dch::config::{join_path, Config, ConfigMantainer, ConfigPackage};
use dch::dchfile::DCHFile;

fn package(name: &str, path: &str) -> ConfigPackage {
    ConfigPackage::resolve(name.to_string(), path.to_string(), None, None)
}

fn settings() -> Config {
    Config::new(
        "/home/me/.dchrc".to_string(),
        vec!["alpha".to_string(), "beta".to_string()],
        ConfigMantainer { name: "Jane Doe".to_string(), email: "jane@example.org".to_string() },
    )
}

#[test]
fn join_path_puts_one_separator_between() {
    assert_eq!(join_path("/srv/app", "debian"), "/srv/app/debian");
    assert_eq!(join_path("/srv/app/", "debian"), "/srv/app/debian");
    assert_eq!(join_path("", "debian"), "debian");
    assert_eq!(join_path("/", "debian"), "/debian");
    assert_eq!(join_path("rel//", "x"), "rel//x");
    assert_eq!(join_path("é", "x"), "é/x");
}

#[test]
fn join_path_agrees_with_the_standard_library() {
    for base in ["/srv/app", "/srv/app/", "", "/", "a//", "rel/dir", "é"] {
        let expected = std::path::Path::new(base).join("debian").join("changelog");
        assert_eq!(
            join_path(&join_path(base, "debian"), "changelog"),
            expected.to_str().unwrap()
        );
    }
}

#[test]
fn the_default_places_lie_below_debian() {
    let it = package("alpha", "/srv/alpha");
    assert_eq!(it.calculate_path_changelog(), "/srv/alpha/debian/changelog");
    assert_eq!(it.calculate_path_dchfile(), "/srv/alpha/debian/Dchfile");
    assert_eq!(it.path_changelog, "/srv/alpha/debian/changelog");
    assert_eq!(it.path_dchfile, "/srv/alpha/debian/Dchfile");
}

#[test]
fn the_settings_may_name_other_places() {
    let it = ConfigPackage::resolve(
        "alpha".to_string(),
        "/srv/alpha".to_string(),
        Some("/elsewhere/log".to_string()),
        None,
    );
    assert_eq!(it.name, "alpha");
    assert_eq!(it.path, "/srv/alpha");
    assert_eq!(it.path_changelog, "/elsewhere/log");
    assert_eq!(it.path_dchfile, "/srv/alpha/debian/Dchfile");
    let it = ConfigPackage::resolve(
        "alpha".to_string(),
        "/srv/alpha".to_string(),
        None,
        Some("Dchfile.yml".to_string()),
    );
    assert_eq!(it.path_changelog, "/srv/alpha/debian/changelog");
    assert_eq!(it.path_dchfile, "Dchfile.yml");
}

#[test]
fn settings_without_packages_render_their_frame() {
    let config = Config::new(
        "rc".to_string(),
        Vec::new(),
        ConfigMantainer { name: "N".to_string(), email: "e".to_string() },
    );
    assert_eq!(config.path, "rc");
    assert!(config.packages_all.is_empty());
    assert_eq!(
        config.to_string(),
        "packages:\npackages-all:\nmantainer:\n\t name: N\n\t email: e\n"
    );
}

#[test]
fn settings_render_every_package() {
    let mut config = settings();
    config.insert_package(package("alpha", "/srv/alpha"));
    config.insert_package(ConfigPackage::resolve(
        "beta".to_string(),
        "/srv/beta/".to_string(),
        Some("/var/beta.log".to_string()),
        None,
    ));
    assert_eq!(
        config.to_string(),
        "packages:\n\t - alpha\n\t - beta\npackages-all:\n\t alpha:\n\t\t name: alpha\n\t\t path: /srv/alpha\n\t\t path-changelog: /srv/alpha/debian/changelog\n\t\t path-dchfile: /srv/alpha/debian/Dchfile\n\t beta:\n\t\t name: beta\n\t\t path: /srv/beta/\n\t\t path-changelog: /var/beta.log\n\t\t path-dchfile: /srv/beta/debian/Dchfile\nmantainer:\n\t name: Jane Doe\n\t email: jane@example.org\n"
    );
}

#[test]
fn a_package_of_a_known_name_takes_its_place() {
    let mut config = settings();
    config.insert_package(package("alpha", "/one"));
    config.insert_package(package("beta", "/two"));
    config.insert_package(package("alpha", "/three"));
    assert_eq!(config.packages_all.len(), 2);
    assert_eq!(config.packages_all[0].name, "alpha");
    assert_eq!(config.packages_all[0].path, "/three");
    assert_eq!(config.packages_all[1].name, "beta");
    assert_eq!(config.packages_all[1].path, "/two");
}

#[test]
fn a_package_is_found_by_its_name() {
    let mut config = settings();
    config.insert_package(package("alpha", "/one"));
    config.insert_package(package("beta", "/two"));
    assert_eq!(config.find("alpha"), Some(0));
    assert_eq!(config.find("beta"), Some(1));
    assert_eq!(config.find("gamma"), None);
    assert_eq!(config.find(""), None);
    assert_eq!(config.package("beta").unwrap().path, "/two");
    assert!(config.package("Beta").is_none());
}

#[test]
fn a_descriptor_falls_back_to_its_defaults() {
    let file = DCHFile::new("alpha", None, "1.2.3".to_string(), None, None);
    assert_eq!(file.package, "alpha");
    assert_eq!(file.version, "1.2.3");
    assert_eq!(file.distribution, "stable");
    assert_eq!(file.urgency, "medium");
    assert!(file.details.is_empty());
    assert!(file.before.is_empty());
    assert!(file.after.is_empty());
}

#[test]
fn a_descriptor_keeps_what_it_names() {
    let file = DCHFile::new(
        "alpha",
        Some("other".to_string()),
        "2.0".to_string(),
        Some("unstable".to_string()),
        Some("high".to_string()),
    );
    assert_eq!(file.package, "other");
    assert_eq!(file.distribution, "unstable");
    assert_eq!(file.urgency, "high");
    assert_eq!(
        file.to_string(),
        "package: other\nversion: 2.0\ndistribution: unstable\nurgency: high\n"
    );
}
