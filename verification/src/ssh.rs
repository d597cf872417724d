use vstd::prelude::*;

verus! {

broadcast use vstd::string::group_string_axioms;

/// Configuration of a remote-command probe: the command one `ssh` invocation
/// runs on the host, optionally as a named user.
#[derive(Debug)]
pub struct Config {
    pub command: String,
    pub hostname: String,
    pub user: Option<String>,
}

impl Clone for Config {
    fn clone(&self) -> (r: Self)
        ensures
            r.command@ == self.command@,
            r.hostname@ == self.hostname@,
            match r.user {
                None => self.user is None,
                Some(u) => self.user is Some && u@ == self.user.unwrap()@,
            },
    {
        let user = match &self.user {
            None => None,
            Some(u) => Some(u.clone()),
        };
        Config { command: self.command.clone(), hostname: self.hostname.clone(), user }
    }
}

/// The probe's display name.
pub open spec fn spec_check_name(c: Config) -> Seq<char> {
    "ssh "@ + c.hostname@ + ": '"@ + c.command@ + "'"@
}

pub fn check_name(config: &Config) -> (r: String)
    ensures
        r@ == spec_check_name(*config),
{
    let mut s = "ssh ".to_owned();
    s.append(config.hostname.as_str());
    s.append(": '");
    s.append(config.command.as_str());
    s.append("'");
    s
}

/// The arguments the `ssh` invocation is given: the host, `-l<user>` when a
/// user is configured, then the command.
pub fn ssh_args(config: &Config) -> (r: Vec<String>)
    ensures
        match config.user {
            None => {
                &&& r@.len() == 2
                &&& r@[0]@ == config.hostname@
                &&& r@[1]@ == config.command@
            },
            Some(u) => {
                &&& r@.len() == 3
                &&& r@[0]@ == config.hostname@
                &&& r@[1]@ == "-l"@ + u@
                &&& r@[2]@ == config.command@
            },
        },
{
    let mut args: Vec<String> = Vec::new();
    args.push(config.hostname.clone());
    if let Some(user) = &config.user {
        let mut flag = "-l".to_owned();
        flag.append(user.as_str());
        args.push(flag);
    }
    args.push(config.command.clone());
    args
}

/// The log a finished command leaves: its standard output and standard
/// error, each under a header line.
pub fn command_log(stdout: &str, stderr: &str) -> (r: String)
    ensures
        r@ == "Stdout:\n"@ + stdout@ + "Stderr:\n"@ + stderr@,
{
    let mut log = "Stdout:\n".to_owned();
    log.append(stdout);
    log.append("Stderr:\n");
    log.append(stderr);
    log
}

} // verus!
