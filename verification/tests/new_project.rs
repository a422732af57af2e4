use sway_ir::new_project::Command;
use sway_ir::new_project::InitCommand;
use sway_ir::new_project::NameUse;
use sway_ir::new_project::NewError;

fn command(name: Option<&str>, path: &str) -> Command {
    Command {
        contract: false,
        script: true,
        predicate: false,
        library: false,
        workspace: false,
        name: name.map(|n| n.to_string()),
        stdlib: Some("../std".to_string()),
        path: path.to_string(),
    }
}

#[test]
fn given_name_is_checked_as_project_name() {
    let c = command(Some("wallet"), "some/dir");
    assert_eq!(
        c.name_to_check(Some("dir".to_string())),
        Ok(("wallet".to_string(), NameUse::Given))
    );
    assert_eq!(c.name_to_check(None), Ok(("wallet".to_string(), NameUse::Given)));
    assert_eq!(NameUse::Given.label(), "project name");
}

#[test]
fn directory_name_is_checked_when_no_name_is_given() {
    let c = command(None, "some/dir");
    assert_eq!(
        c.name_to_check(Some("dir".to_string())),
        Ok(("dir".to_string(), NameUse::Directory))
    );
    assert_eq!(NameUse::Directory.label(), "project_name");
}

#[test]
fn missing_path_is_an_error() {
    let c = command(None, "..");
    assert_eq!(c.name_to_check(None), Err(NewError::MissingPath));
}

#[test]
fn existing_directory_is_an_error() {
    let c = command(Some("wallet"), "some/dir");
    assert_eq!(c.plan(true), Err(NewError::DirectoryExists));
}

#[test]
fn plan_hands_every_option_on() {
    let c = command(Some("wallet"), "some/dir");
    assert_eq!(
        c.plan(false),
        Ok(InitCommand {
            path: Some("some/dir".to_string()),
            contract: false,
            script: true,
            predicate: false,
            library: false,
            workspace: false,
            stdlib: Some("../std".to_string()),
            name: Some("wallet".to_string()),
        })
    );
}
