//! The data root: the directory under which the daily logs live.

use crate::failure::Failure;
use crate::text::option_text;
use vstd::prelude::*;

verus! {

/// `name` under the directory `dir`: the two with one `/` between them,
/// which `dir` may bring itself. Under the empty directory a name stands
/// alone.
pub open spec fn joined(dir: Seq<char>, name: Seq<char>) -> Seq<char> {
    if dir.len() == 0 || dir.last() == '/' {
        dir + name
    } else {
        dir + seq!['/'] + name
    }
}

/// Where the logs of the application `app_name` live below a home
/// directory.
pub open spec fn share_dir(app_name: Seq<char>) -> Seq<char> {
    ".local/share/"@ + app_name
}

/// The data root under the home directory: `.local/share/<app_name>` in it.
/// There is none where the home directory is unknown or empty.
pub open spec fn home_data_root(home: Option<Seq<char>>, app_name: Seq<char>) -> Option<Seq<char>> {
    match home {
        Some(dir) => if dir.len() > 0 {
            Some(joined(dir, share_dir(app_name)))
        } else {
            None
        },
        None => None,
    }
}

/// The data root: `xdg_data_home` where that is set and not empty, else
/// the one under the home directory.
pub open spec fn data_root(
    xdg_data_home: Option<Seq<char>>,
    home: Option<Seq<char>>,
    app_name: Seq<char>,
) -> Option<Seq<char>> {
    match xdg_data_home {
        Some(dir) => if dir.len() > 0 {
            Some(dir)
        } else {
            home_data_root(home, app_name)
        },
        None => home_data_root(home, app_name),
    }
}

/// Whether `outcome` reports the data root `root`: the path where there is
/// one, a configuration failure where there is none.
pub open spec fn reports(outcome: Result<String, Failure>, root: Option<Seq<char>>) -> bool {
    match root {
        Some(path) => outcome is Ok && outcome->Ok_0@ == path,
        None => outcome == Err::<String, Failure>(Failure::Configuration),
    }
}

/// The path of `name` in the directory `dir`.
pub fn join_path(dir: &str, name: &str) -> (path: String)
    ensures
        path@ == joined(dir@, name@),
{
    let length: usize = dir.unicode_len();
    let mut path: String = String::from_str(dir);
    if length > 0 && dir.get_char(length - 1) != '/' {
        proof {
            reveal_strlit("/");
            assert("/"@ =~= seq!['/']);
        }
        path.append("/");
    }
    path.append(name);
    path
}

/// `dirs::home_dir`, which asks the system for the home directory of the
/// user (on Unix `$HOME`, else the password database). A path that is not
/// Unicode counts as unknown. Nothing is promised of the answer: it is the
/// machine's.
#[verifier::external_body]
fn home_dir() -> (home: Option<String>) {
    let home = dirs::home_dir()?;
    home.to_str().map(str::to_owned)
}

/// The data root under the given home directory, or the failure to report
/// where the home directory is unknown.
pub fn data_home_under(home: Option<&str>, app_name: &str) -> (outcome: Result<String, Failure>)
    ensures
        reports(outcome, home_data_root(option_text(home), app_name@)),
{
    match home {
        Some(dir) => {
            if dir.is_empty() {
                Err(Failure::Configuration)
            } else {
                let below: String = String::from_str(".local/share/").concat(app_name);
                Ok(join_path(dir, below.as_str()))
            }
        },
        None => Err(Failure::Configuration),
    }
}

/// The data root under the user's home directory, which the system names.
/// Whatever it names, the outcome is the one that `data_home_under` gives
/// for it; where it names none, that is a configuration failure, never a
/// guessed path.
pub fn xdg_data_home(app_name: &str) -> (outcome: Result<String, Failure>)
    ensures
        exists|home: Option<Seq<char>>| #[trigger]
            reports(outcome, home_data_root(home, app_name@)),
{
    let home: Option<String> = home_dir();
    let outcome = match &home {
        Some(dir) => data_home_under(Some(dir.as_str()), app_name),
        None => data_home_under(None, app_name),
    };
    proof {
        let known: Option<Seq<char>> = match home {
            Some(dir) => Some(dir@),
            None => None,
        };
        assert(reports(outcome, home_data_root(known, app_name@)));
    }
    outcome
}

/// The data root for the given settings: `xdg_data_home` is the value of
/// `XDG_DATA_HOME`, `home` the home directory, each where it is set.
pub fn root_from(xdg_data_home: Option<&str>, home: Option<&str>, app_name: &str) -> (outcome:
    Result<String, Failure>)
    ensures
        reports(outcome, data_root(option_text(xdg_data_home), option_text(home), app_name@)),
{
    match xdg_data_home {
        Some(dir) => {
            if dir.is_empty() {
                data_home_under(home, app_name)
            } else {
                Ok(String::from_str(dir))
            }
        },
        None => data_home_under(home, app_name),
    }
}

/// The data root of this run: `xdg_data_home`, the value of
/// `XDG_DATA_HOME`, where that is set and not empty; else the one under the
/// home directory that the system names, which is asked only then.
pub fn resolve_root(xdg_data_home: Option<&str>, app_name: &str) -> (outcome: Result<
    String,
    Failure,
>)
    ensures
        exists|home: Option<Seq<char>>| #[trigger]
            reports(outcome, data_root(option_text(xdg_data_home), home, app_name@)),
{
    match xdg_data_home {
        Some(dir) => {
            if dir.is_empty() {
                let outcome = self::xdg_data_home(app_name);
                proof {
                    let home = choose|home: Option<Seq<char>>| #[trigger]
                        reports(outcome, home_data_root(home, app_name@));
                    assert(reports(
                        outcome,
                        data_root(option_text(xdg_data_home), home, app_name@),
                    ));
                }
                outcome
            } else {
                let outcome = Ok(String::from_str(dir));
                proof {
                    assert(reports(outcome, data_root(option_text(xdg_data_home), None, app_name@)));
                }
                outcome
            }
        },
        None => {
            let outcome = self::xdg_data_home(app_name);
            proof {
                let home = choose|home: Option<Seq<char>>| #[trigger]
                    reports(outcome, home_data_root(home, app_name@));
                assert(reports(outcome, data_root(option_text(xdg_data_home), home, app_name@)));
            }
            outcome
        },
    }
}

} // verus!
