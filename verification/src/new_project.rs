//! The decisions of the command that sets up a new project.
//!
//! The command looks at the disk and writes to it; that part is not here.  What
//! is here says which name has to pass the name check before anything is
//! written, and what to do once it is known whether the directory exists.

use vstd::prelude::*;

verus! {

/// The options of the command.
#[derive(Clone, Debug, PartialEq, Eq)]
pub struct Command {
    /// Make a contract, which is also what is made when no kind is chosen.
    pub contract: bool,
    /// Make an empty script.
    pub script: bool,
    /// Make an empty predicate.
    pub predicate: bool,
    /// Make an empty library.
    pub library: bool,
    /// Make an empty workspace.
    pub workspace: bool,
    /// The package name.  Without it the name of the directory is taken.
    pub name: Option<String>,
    /// Where the standard library is, if it is not to be fetched.
    pub stdlib: Option<String>,
    /// Where the project directory is to be made.
    pub path: String,
}

/// The options of the initialisation that follows once the directory is there.
#[derive(Clone, Debug, PartialEq, Eq)]
pub struct InitCommand {
    pub path: Option<String>,
    pub contract: bool,
    pub script: bool,
    pub predicate: bool,
    pub library: bool,
    pub workspace: bool,
    pub stdlib: Option<String>,
    pub name: Option<String>,
}

/// What a name is called when the name check complains about it.
#[derive(Clone, Copy, Debug, PartialEq, Eq, Structural)]
pub enum NameUse {
    /// The name was given as an option.
    Given,
    /// The name is the last part of the path.
    Directory,
}

/// Why no project is made.
#[derive(Clone, Copy, Debug, PartialEq, Eq, Structural)]
pub enum NewError {
    /// No name was given and the path has no last part to take one from.
    MissingPath,
    /// There is a directory at the path already.
    DirectoryExists,
}

impl NameUse {
    /// The words handed to the name check.
    pub fn label(&self) -> (words: &'static str)
        ensures
            *self == NameUse::Given ==> words@ == "project name"@,
            *self == NameUse::Directory ==> words@ == "project_name"@,
    {
        match self {
            NameUse::Given => "project name",
            NameUse::Directory => "project_name",
        }
    }
}

impl Command {
    /// The name that has to pass the name check: the name that was given, or
    /// else the last part of the path, which the caller has taken from the path
    /// and hands in as `directory_name`.
    pub fn name_to_check(&self, directory_name: Option<String>) -> (checked: Result<
        (String, NameUse),
        NewError,
    >)
        ensures
            checked == (match self.name {
                Some(name) => Ok::<(String, NameUse), NewError>((name, NameUse::Given)),
                None => match directory_name {
                    Some(name) => Ok((name, NameUse::Directory)),
                    None => Err(NewError::MissingPath),
                },
            }),
    {
        match &self.name {
            Some(name) => Ok((name.clone(), NameUse::Given)),
            None => match directory_name {
                Some(name) => Ok((name, NameUse::Directory)),
                None => Err(NewError::MissingPath),
            },
        }
    }

    /// What follows once the name has passed: nothing is made where a
    /// directory exists at the path; else the directory is to be made and
    /// initialised with the options that are returned.
    pub fn plan(self, directory_exists: bool) -> (plan: Result<InitCommand, NewError>)
        ensures
            directory_exists ==> plan == Err::<InitCommand, NewError>(NewError::DirectoryExists),
            !directory_exists ==> plan == Ok::<InitCommand, NewError>(
                InitCommand {
                    path: Some(self.path),
                    contract: self.contract,
                    script: self.script,
                    predicate: self.predicate,
                    library: self.library,
                    workspace: self.workspace,
                    stdlib: self.stdlib,
                    name: self.name,
                },
            ),
    {
        if directory_exists {
            Err(NewError::DirectoryExists)
        } else {
            Ok(
                InitCommand {
                    path: Some(self.path),
                    contract: self.contract,
                    script: self.script,
                    predicate: self.predicate,
                    library: self.library,
                    workspace: self.workspace,
                    stdlib: self.stdlib,
                    name: self.name,
                },
            )
        }
    }
}

} // verus!
