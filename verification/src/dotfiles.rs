//! The shell script that installs a user's dotfiles in the container.
use vstd::prelude::*;
use crate::args::{option_value, parse_option_value};
use crate::text::{
    chars_of, copy_string, join, join_strings, rfind_char, rfind_char_exec, slice_chars,
    starts_with, str_starts_with, string_of, views,
};

verus! {

/// `'` closing, escaped and reopened inside single quotes.
pub open spec fn single_quoted_body(s: Seq<char>) -> Seq<char>
    decreases s.len(),
{
    if s.len() == 0 {
        Seq::empty()
    } else {
        single_quoted_body(s.drop_last()) + if s.last() == '\'' {
            "'\"'\"'"@
        } else {
            seq![s.last()]
        }
    }
}

/// The value in single quotes for a POSIX shell.
pub open spec fn single_quoted(s: Seq<char>) -> Seq<char> {
    "'"@ + single_quoted_body(s) + "'"@
}

/// Quotes a value for a POSIX shell.
pub fn shell_single_quote(value: &str) -> (r: String)
    ensures
        r@ == single_quoted(value@),
{
    let v = chars_of(value);
    let mut r = String::from_str("'");
    let ghost start = r@;
    let mut i: usize = 0;
    while i < v.len()
        invariant
            i <= v.len(),
            r@ == start + single_quoted_body(v@.take(i as int)),
        decreases v.len() - i,
    {
        proof {
            assert(v@.take(i + 1).drop_last() =~= v@.take(i as int));
        }
        if v[i] == '\'' {
            r.append("'\"'\"'");
        } else {
            crate::text::push_char(&mut r, v[i]);
        }
        proof {
            assert(r@ =~= start + single_quoted_body(v@.take(i + 1)));
        }
        i = i + 1;
    }
    r.append("'");
    proof {
        assert(v@.take(v.len() as int) =~= v@);
    }
    r
}

/// A path for the shell: paths under `~/` stay unquoted so the shell expands them.
pub open spec fn path_argument(s: Seq<char>) -> Seq<char> {
    if starts_with(s, "~/"@) {
        s
    } else {
        single_quoted(s)
    }
}

/// A path argument for the shell.
pub fn shell_path_argument(value: &str) -> (r: String)
    ensures
        r@ == path_argument(value@),
{
    if str_starts_with(value, "~/") {
        String::from_str(value)
    } else {
        shell_single_quote(value)
    }
}

/// What precedes the last `/`, or `.` without one.
pub open spec fn parent_of(path: Seq<char>) -> Seq<char> {
    match rfind_char(path, '/') {
        Some(i) => path.take(i),
        None => "."@,
    }
}

/// The directory part of a path as the shell script uses it.
pub fn shell_parent(path: &str) -> (r: String)
    ensures
        r@ == parent_of(path@),
{
    let v = chars_of(path);
    match rfind_char_exec(&v, '/') {
        Some(i) => {
            proof {
                crate::text::lemma_rfind_char_bounds(v@, '/');
            }
            let h = slice_chars(&v, 0, i);
            string_of(&h)
        },
        None => String::from_str("."),
    }
}

/// A command that creates the file only if it does not exist, failing otherwise.
pub open spec fn create_file_text(location: Seq<char>) -> Seq<char> {
    "test ! -f "@ + path_argument(location) + " && set -o noclobber && mkdir -p "@ + path_argument(
        parent_of(location),
    ) + " && { > "@ + path_argument(location) + " ; } 2> /dev/null"@
}

/// The command that creates a marker file once.
pub fn create_file_command(location: &str) -> (r: String)
    ensures
        r@ == create_file_text(location@),
{
    let loc = shell_path_argument(location);
    let parent = shell_parent(location);
    let parent_arg = shell_path_argument(parent.as_str());
    let mut r = String::from_str("test ! -f ");
    r.append(loc.as_str());
    r.append(" && set -o noclobber && mkdir -p ");
    r.append(parent_arg.as_str());
    r.append(" && { > ");
    r.append(loc.as_str());
    r.append(" ; } 2> /dev/null");
    r
}

/// A repository given as `owner/name` becomes its GitHub URL; URLs and paths stay.
pub open spec fn repository_url(repository: Seq<char>) -> Seq<char> {
    if repository.contains(':') || starts_with(repository, "./"@) || starts_with(repository, "../"@)
        || starts_with(repository, "/"@) {
        repository
    } else {
        "https://github.com/"@ + repository + ".git"@
    }
}

/// The clone URL or path of the dotfiles repository.
pub fn normalize_dotfiles_repository(repository: &str) -> (r: String)
    ensures
        r@ == repository_url(repository@),
{
    let v = chars_of(repository);
    let mut has_colon = false;
    let mut i: usize = 0;
    while i < v.len()
        invariant
            i <= v.len(),
            has_colon == (exists|k: int| 0 <= k < i && #[trigger] v@[k] == ':'),
        decreases v.len() - i,
    {
        if v[i] == ':' {
            has_colon = true;
        }
        i = i + 1;
    }
    proof {
        if repository@.contains(':') {
            let k = choose|k: int| 0 <= k < repository@.len() && repository@[k] == ':';
            assert(v@[k] == ':');
        }
    }
    if has_colon || str_starts_with(repository, "./") || str_starts_with(repository, "../")
        || str_starts_with(repository, "/") {
        String::from_str(repository)
    } else {
        let mut r = String::from_str("https://github.com/");
        r.append(repository);
        r.append(".git");
        r
    }
}

/// The lines that run a named install command, found as `./command` or as given.
pub open spec fn explicit_install_lines(install_command: Seq<char>) -> Seq<Seq<char>> {
    let quoted = single_quoted(install_command);
    let dotted = single_quoted("./"@ + install_command);
    seq![
        "if [ -f "@ + dotted + " ]"@,
        "then"@,
        "  install_path="@ + dotted,
        "elif [ -f "@ + quoted + " ]"@,
        "then"@,
        "  install_path="@ + quoted,
        "else"@,
        "  echo Could not locate "@ + quoted,
        "  exit 126"@,
        "fi"@,
        "if [ ! -x \"$install_path\" ]"@,
        "then"@,
        "  chmod +x \"$install_path\""@,
        "fi"@,
        "echo Executing command \"$install_path\"..."@,
        "\"$install_path\""@,
    ]
}

fn concat2(a: &str, b: &str) -> (r: String)
    ensures
        r@ == a@ + b@,
{
    let mut r = String::from_str(a);
    r.append(b);
    r
}

fn concat3(a: &str, b: &str, c: &str) -> (r: String)
    ensures
        r@ == a@ + b@ + c@,
{
    let mut r = String::from_str(a);
    r.append(b);
    r.append(c);
    r
}

/// The script lines for an explicit install command.
pub fn dotfiles_explicit_install_commands(install_command: &str) -> (r: Vec<String>)
    ensures
        views(r@) == explicit_install_lines(install_command@),
{
    let quoted = shell_single_quote(install_command);
    let dotted_path = concat2("./", install_command);
    let dotted = shell_single_quote(dotted_path.as_str());
    let mut r: Vec<String> = Vec::new();
    r.push(concat3("if [ -f ", dotted.as_str(), " ]"));
    r.push(String::from_str("then"));
    r.push(concat2("  install_path=", dotted.as_str()));
    r.push(concat3("elif [ -f ", quoted.as_str(), " ]"));
    r.push(String::from_str("then"));
    r.push(concat2("  install_path=", quoted.as_str()));
    r.push(String::from_str("else"));
    r.push(concat2("  echo Could not locate ", quoted.as_str()));
    r.push(String::from_str("  exit 126"));
    r.push(String::from_str("fi"));
    r.push(String::from_str("if [ ! -x \"$install_path\" ]"));
    r.push(String::from_str("then"));
    r.push(String::from_str("  chmod +x \"$install_path\""));
    r.push(String::from_str("fi"));
    r.push(String::from_str("echo Executing command \"$install_path\"..."));
    r.push(String::from_str("\"$install_path\""));
    proof {
        assert(views(r@) =~= explicit_install_lines(install_command@));
    }
    r
}

/// The lines that look for a usual install script, or else link the dotfiles.
pub open spec fn default_install_lines() -> Seq<Seq<char>> {
    seq![
        "install_path=''"@,
        "for f in install.sh install bootstrap.sh bootstrap script/bootstrap setup.sh setup script/setup"@,
        "do"@,
        "  if [ -e \"$f\" ]"@,
        "  then"@,
        "    install_path=\"$f\""@,
        "    break"@,
        "  fi"@,
        "done"@,
        "if [ -z \"$install_path\" ]"@,
        "then"@,
        "  dotfiles=$(find \"$(pwd)\" -mindepth 1 -maxdepth 1 -name '.*' ! -name '.git' -print)"@,
        "  if [ ! -z \"$dotfiles\" ]"@,
        "  then"@,
        "    echo Linking dotfiles: $dotfiles"@,
        "    ln -sf $dotfiles ~ 2>/dev/null"@,
        "  else"@,
        "    echo No dotfiles found."@,
        "  fi"@,
        "else"@,
        "  if [ ! -x \"$install_path\" ]"@,
        "  then"@,
        "    chmod +x \"$install_path\""@,
        "  fi"@,
        "  echo Executing command \"$install_path\"..."@,
        "  ./\"$install_path\""@,
        "fi"@,
    ]
}

/// The script lines used when no install command is given.
pub fn dotfiles_default_install_commands() -> (r: Vec<String>)
    ensures
        views(r@) == default_install_lines(),
{
    let mut r: Vec<String> = Vec::new();
    r.push(String::from_str("install_path=''"));
    r.push(String::from_str("for f in install.sh install bootstrap.sh bootstrap script/bootstrap setup.sh setup script/setup"));
    r.push(String::from_str("do"));
    r.push(String::from_str("  if [ -e \"$f\" ]"));
    r.push(String::from_str("  then"));
    r.push(String::from_str("    install_path=\"$f\""));
    r.push(String::from_str("    break"));
    r.push(String::from_str("  fi"));
    r.push(String::from_str("done"));
    r.push(String::from_str("if [ -z \"$install_path\" ]"));
    r.push(String::from_str("then"));
    r.push(String::from_str("  dotfiles=$(find \"$(pwd)\" -mindepth 1 -maxdepth 1 -name '.*' ! -name '.git' -print)"));
    r.push(String::from_str("  if [ ! -z \"$dotfiles\" ]"));
    r.push(String::from_str("  then"));
    r.push(String::from_str("    echo Linking dotfiles: $dotfiles"));
    r.push(String::from_str("    ln -sf $dotfiles ~ 2>/dev/null"));
    r.push(String::from_str("  else"));
    r.push(String::from_str("    echo No dotfiles found."));
    r.push(String::from_str("  fi"));
    r.push(String::from_str("else"));
    r.push(String::from_str("  if [ ! -x \"$install_path\" ]"));
    r.push(String::from_str("  then"));
    r.push(String::from_str("    chmod +x \"$install_path\""));
    r.push(String::from_str("  fi"));
    r.push(String::from_str("  echo Executing command \"$install_path\"..."));
    r.push(String::from_str("  ./\"$install_path\""));
    r.push(String::from_str("fi"));
    proof {
        assert(views(r@) =~= default_install_lines());
    }
    r
}

/// `s` without its trailing `/` characters.
pub open spec fn without_trailing_slashes(s: Seq<char>) -> Seq<char> {
    crate::text::trim_trailing_slashes(s)
}

/// The dotfiles script: a marker file keeps it from running twice, the
/// repository is cloned into the target path (`~/dotfiles` by default), then
/// the install command (or the default search) runs there; none without a
/// `--dotfiles-repository`.
pub open spec fn dotfiles_script(args: Seq<Seq<char>>) -> Option<Seq<char>> {
    match option_value(args, "--dotfiles-repository"@) {
        None => None,
        Some(repo) => {
            let repository = repository_url(repo);
            let target = match option_value(args, "--dotfiles-target-path"@) {
                Some(t) => t,
                None => "~/dotfiles"@,
            };
            let data = match option_value(args, "--container-data-folder"@) {
                Some(d) => d,
                None => "~/.devcontainer"@,
            };
            let marker = without_trailing_slashes(data) + "/.dotfilesMarker"@;
            let head = seq![
                create_file_text(marker) + " || (echo dotfiles marker found && exit 1) || exit 0"@,
                "command -v git >/dev/null 2>&1 || (echo git not found && exit 1) || exit 0"@,
                "[ -e "@ + path_argument(target) + " ] || git clone --depth 1 "@ + single_quoted(
                    repository,
                ) + " "@ + path_argument(target) + " || exit $?"@,
                "echo Setting current directory to "@ + target,
                "cd "@ + path_argument(target),
            ];
            let tail = match option_value(args, "--dotfiles-install-command"@) {
                Some(c) => explicit_install_lines(c),
                None => default_install_lines(),
            };
            Some(join(head + tail, "\n"@))
        },
    }
}

/// The dotfiles installation script, if a dotfiles repository is given.
pub fn dotfiles_install_command(args: &[String]) -> (r: Option<String>)
    ensures
        crate::text::opt_view(r) == dotfiles_script(views(args@)),
{
    let repo = match parse_option_value(args, "--dotfiles-repository") {
        Some(r) => r,
        None => return None,
    };
    let repository = normalize_dotfiles_repository(repo.as_str());
    let target = match parse_option_value(args, "--dotfiles-target-path") {
        Some(t) => t,
        None => String::from_str("~/dotfiles"),
    };
    let data = match parse_option_value(args, "--container-data-folder") {
        Some(d) => d,
        None => String::from_str("~/.devcontainer"),
    };
    let dv = chars_of(data.as_str());
    proof {
        assert(dv@.take(dv.len() as int) =~= dv@);
    }
    let mut k: usize = dv.len();
    while k > 0 && dv[k - 1] == '/'
        invariant
            k <= dv.len(),
            crate::text::trim_trailing_slashes(dv@) == crate::text::trim_trailing_slashes(dv@.take(k as int)),
        decreases k,
    {
        proof {
            assert(dv@.take(k as int).drop_last() =~= dv@.take(k - 1));
        }
        k = k - 1;
    }
    let trimmed = slice_chars(&dv, 0, k);
    proof {
        assert(trimmed@ =~= dv@.take(k as int));
    }
    let trimmed_text = string_of(&trimmed);
    let marker = concat2(trimmed_text.as_str(), "/.dotfilesMarker");
    let target_arg = shell_path_argument(target.as_str());
    let quoted_repo = shell_single_quote(repository.as_str());
    let mut script: Vec<String> = Vec::new();
    let create = create_file_command(marker.as_str());
    script.push(concat2(create.as_str(), " || (echo dotfiles marker found && exit 1) || exit 0"));
    script.push(String::from_str("command -v git >/dev/null 2>&1 || (echo git not found && exit 1) || exit 0"));
    let mut clone = concat3("[ -e ", target_arg.as_str(), " ] || git clone --depth 1 ");
    clone.append(quoted_repo.as_str());
    clone.append(" ");
    clone.append(target_arg.as_str());
    clone.append(" || exit $?");
    script.push(clone);
    script.push(concat2("echo Setting current directory to ", target.as_str()));
    script.push(concat2("cd ", target_arg.as_str()));
    let ghost head = views(script@);
    proof {
        let repo_text = option_value(views(args@), "--dotfiles-repository"@);
        let target_text = target@;
        assert(marker@ == without_trailing_slashes(data@) + "/.dotfilesMarker"@);
        assert(head =~= seq![
            create_file_text(marker@) + " || (echo dotfiles marker found && exit 1) || exit 0"@,
            "command -v git >/dev/null 2>&1 || (echo git not found && exit 1) || exit 0"@,
            "[ -e "@ + path_argument(target@) + " ] || git clone --depth 1 "@ + single_quoted(
                repository@,
            ) + " "@ + path_argument(target@) + " || exit $?"@,
            "echo Setting current directory to "@ + target@,
            "cd "@ + path_argument(target@),
        ]);
    }
    let mut tail = match parse_option_value(args, "--dotfiles-install-command") {
        Some(c) => dotfiles_explicit_install_commands(c.as_str()),
        None => dotfiles_default_install_commands(),
    };
    let ghost tv = views(tail@);
    script.append(&mut tail);
    proof {
        assert(views(script@) =~= head + tv);
    }
    Some(join_strings(&script, "\n"))
}

} // verus!
