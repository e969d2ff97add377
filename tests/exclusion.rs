use git_logue::diff::{should_exclude_file, FileStatus};

#[test]
fn test_should_exclude_lock_files() {
    assert!(should_exclude_file("package-lock.json"));
    assert!(should_exclude_file("yarn.lock"));
    assert!(should_exclude_file("pnpm-lock.yaml"));
    assert!(should_exclude_file("Cargo.lock"));
    assert!(should_exclude_file("Gemfile.lock"));
    assert!(should_exclude_file("poetry.lock"));
    assert!(should_exclude_file("Pipfile.lock"));
    assert!(should_exclude_file("composer.lock"));
    assert!(should_exclude_file("go.sum"));
    assert!(should_exclude_file("Package.resolved"));
    assert!(should_exclude_file("pubspec.lock"));
    assert!(should_exclude_file("packages.lock.json"));
    assert!(should_exclude_file("project.assets.json"));
    assert!(should_exclude_file("mix.lock"));
    assert!(should_exclude_file("gradle.lockfile"));
    assert!(should_exclude_file("buildscript-gradle.lockfile"));
    assert!(should_exclude_file("build.sbt.lock"));
    assert!(should_exclude_file("MODULE.bazel.lock"));
}

#[test]
fn test_should_exclude_lock_files_with_path() {
    assert!(should_exclude_file("path/to/package-lock.json"));
    assert!(should_exclude_file("src/Cargo.lock"));
    assert!(should_exclude_file("frontend/yarn.lock"));
}

#[test]
fn test_should_exclude_minified_files() {
    assert!(should_exclude_file("bundle.min.js"));
    assert!(should_exclude_file("app.min.css"));
    assert!(should_exclude_file("vendor.bundle.js"));
    assert!(should_exclude_file("styles.bundle.css"));
    assert!(should_exclude_file("app.js.map"));
    assert!(should_exclude_file("styles.css.map"));
    assert!(should_exclude_file("types.d.ts.map"));
}

#[test]
fn test_should_exclude_minified_files_with_path() {
    assert!(should_exclude_file("dist/bundle.min.js"));
    assert!(should_exclude_file("public/assets/app.min.css"));
}

#[test]
fn test_should_not_exclude_normal_files() {
    assert!(!should_exclude_file("src/main.rs"));
    assert!(!should_exclude_file("package.json"));
    assert!(!should_exclude_file("Cargo.toml"));
    assert!(!should_exclude_file("app.js"));
    assert!(!should_exclude_file("styles.css"));
    assert!(!should_exclude_file("lock.txt"));
    assert!(!should_exclude_file("minify.rs"));
}

#[test]
fn test_should_exclude_snapshot_files() {
    assert!(should_exclude_file("component.test.ts.snap"));
    assert!(should_exclude_file("tests/__snapshots__/test.snap"));
    assert!(should_exclude_file("__snapshots__/component.snap"));
    assert!(should_exclude_file("src/__snapshots__/app.test.js.snap"));
}

#[test]
fn lock_name_inside_directory_name_is_not_excluded() {
    assert!(!should_exclude_file("yarn.lock/readme.md"));
    assert!(!should_exclude_file(""));
    assert!(should_exclude_file("a/b/__snapshots__/x.txt"));
}

#[test]
fn status_codes() {
    assert_eq!(FileStatus::Added.as_str(), "A");
    assert_eq!(FileStatus::Deleted.as_str(), "D");
    assert_eq!(FileStatus::Modified.as_str(), "M");
    assert_eq!(FileStatus::Renamed.as_str(), "R");
    assert_eq!(FileStatus::Copied.as_str(), "C");
    assert_eq!(FileStatus::Unmodified.as_str(), "U");
}
