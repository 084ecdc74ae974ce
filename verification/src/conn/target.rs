//! Where to connect to, and when to move to a Unix socket.

use vstd::prelude::*;
use vstd::string::*;

use crate::error::{Error, ErrorView};
use crate::text::{all_digits, decimal, decimal_reads_back, number_in, push_decimal};
use crate::types::Opts;

verus! {

/// Where to connect to.
#[derive(Debug)]
pub enum Target {
    /// The path of a Unix socket.
    Unix(String),
    /// Host and port, separated by a colon.
    Tcp(String),
}

/// A target with its text as a sequence.
pub enum TargetView {
    Unix(Seq<char>),
    Tcp(Seq<char>),
}

impl View for Target {
    type V = TargetView;

    open spec fn view(&self) -> TargetView {
        match self {
            Target::Unix(path) => TargetView::Unix(path@),
            Target::Tcp(address) => TargetView::Tcp(address@),
        }
    }
}

/// The target of these options on a platform with or without Unix sockets.
pub open spec fn target_of(opts: Opts, unix_sockets: bool) -> Result<TargetView, ErrorView> {
    match opts.socket {
        Some(path) => if unix_sockets {
            Ok(TargetView::Unix(path@))
        } else {
            Err(ErrorView::Unsupported("Unix sockets are not supported on this platform"@))
        },
        None => if opts.host@.len() == 0 {
            Err(ErrorView::InvalidUsage("host is empty"@))
        } else {
            Ok(TargetView::Tcp(opts.host@ + ":"@ + decimal(opts.port as nat)))
        },
    }
}

/// The query that asks the server for its socket directories.
pub const SOCKET_DIRECTORIES_QUERY: &'static str = "SHOW unix_socket_directories";

/// The characters with the Unicode property White_Space.
pub open spec fn white_space(c: char) -> bool {
    let n = c as u32;
    ||| 9 <= n <= 13
    ||| n == 0x20
    ||| n == 0x85
    ||| n == 0xa0
    ||| n == 0x1680
    ||| 0x2000 <= n <= 0x200a
    ||| n == 0x2028
    ||| n == 0x2029
    ||| n == 0x202f
    ||| n == 0x205f
    ||| n == 0x3000
}

fn is_white_space(c: char) -> (r: bool)
    ensures
        r == white_space(c),
{
    let n: u32 = c as u32;
    (9 <= n && n <= 13) || n == 0x20 || n == 0x85 || n == 0xa0 || n == 0x1680 || (0x2000 <= n && n
        <= 0x200a) || n == 0x2028 || n == 0x2029 || n == 0x202f || n == 0x205f || n == 0x3000
}

/// The text without the white space in front.
pub open spec fn trim_start(s: Seq<char>) -> Seq<char>
    decreases s.len(),
{
    if s.len() > 0 && white_space(s[0]) {
        trim_start(s.drop_first())
    } else {
        s
    }
}

/// The text without the white space at the end.
pub open spec fn trim_end(s: Seq<char>) -> Seq<char>
    decreases s.len(),
{
    if s.len() > 0 && white_space(s.last()) {
        trim_end(s.drop_last())
    } else {
        s
    }
}

/// The text in front of the first comma.
pub open spec fn before_comma(s: Seq<char>) -> Seq<char>
    decreases s.len(),
{
    if s.len() == 0 || s[0] == ',' {
        Seq::empty()
    } else {
        seq![s[0]] + before_comma(s.drop_first())
    }
}

/// The first directory of a comma-separated list, if it has a name.
pub open spec fn first_dir(dirs: Seq<char>) -> Option<Seq<char>> {
    let dir = trim_end(trim_start(before_comma(dirs)));
    if dir.len() == 0 {
        None
    } else {
        Some(dir)
    }
}

proof fn before_comma_has_none(s: Seq<char>)
    ensures
        !before_comma(s).contains(','),
    decreases s.len(),
{
    if s.len() > 0 && s[0] != ',' {
        before_comma_has_none(s.drop_first());
        assert forall|i: int| 0 <= i < before_comma(s).len() implies before_comma(s)[i] != ',' by {
            if i > 0 {
                assert(before_comma(s)[i] == before_comma(s.drop_first())[i - 1]);
            }
        }
    }
}

proof fn trim_start_trims(s: Seq<char>)
    ensures
        trim_start(s).len() > 0 ==> !white_space(trim_start(s)[0]),
        forall|c: char| !s.contains(c) ==> !#[trigger] trim_start(s).contains(c),
    decreases s.len(),
{
    if s.len() > 0 && white_space(s[0]) {
        trim_start_trims(s.drop_first());
        assert forall|c: char| !s.contains(c) implies !#[trigger] trim_start(s).contains(c) by {
            assert forall|i: int| 0 <= i < s.drop_first().len() implies s.drop_first()[i] != c by {
                assert(s[i + 1] == s.drop_first()[i]);
            }
            assert(!s.drop_first().contains(c));
        }
    }
}

proof fn trim_end_trims(s: Seq<char>)
    ensures
        trim_end(s).len() > 0 ==> !white_space(trim_end(s).last()) && trim_end(s)[0] == s[0],
        forall|c: char| !s.contains(c) ==> !#[trigger] trim_end(s).contains(c),
    decreases s.len(),
{
    if s.len() > 0 && white_space(s.last()) {
        trim_end_trims(s.drop_last());
        assert forall|c: char| !s.contains(c) implies !#[trigger] trim_end(s).contains(c) by {
            assert forall|i: int| 0 <= i < s.drop_last().len() implies s.drop_last()[i] != c by {
                assert(s[i] == s.drop_last()[i]);
            }
            assert(!s.drop_last().contains(c));
        }
    }
}

/// The directory that is taken from a list is a single one, and no white space surrounds it.
pub proof fn first_dir_is_trimmed(dirs: Seq<char>)
    ensures
        first_dir(dirs) matches Some(dir) ==> dir.len() > 0 && !dir.contains(',') && !white_space(
            dir[0],
        ) && !white_space(dir.last()),
{
    before_comma_has_none(dirs);
    trim_start_trims(before_comma(dirs));
    trim_end_trims(trim_start(before_comma(dirs)));
}

/// The path of the server's socket in a directory.
pub open spec fn socket_path_of(dir: Seq<char>, port: nat) -> Seq<char> {
    dir + "/.s.PGSQL."@ + decimal(port)
}

proof fn before_comma_prefix(s: Seq<char>, end: int)
    requires
        0 <= end <= s.len(),
        forall|i: int| 0 <= i < end ==> s[i] != ',',
        end == s.len() || s[end] == ',',
    ensures
        before_comma(s) == s.take(end),
    decreases end,
{
    if end == 0 {
        assert(s.take(0) =~= Seq::empty());
    } else {
        before_comma_prefix(s.drop_first(), end - 1);
        assert(seq![s[0]] + s.drop_first().take(end - 1) =~= s.take(end));
    }
}

/// The first directory of a comma-separated list, if it has a name.
pub fn first_socket_dir(dirs: &str) -> (r: Option<String>)
    ensures
        match r {
            Some(dir) => first_dir(dirs@) == Some(dir@),
            None => first_dir(dirs@) is None,
        },
{
    let length: usize = dirs.unicode_len();
    let mut end: usize = 0;
    while end < length && dirs.get_char(end) != ','
        invariant
            length == dirs@.len(),
            end <= length,
            forall|i: int| 0 <= i < end ==> dirs@[i] != ',',
        decreases length - end,
    {
        end = end + 1;
    }
    let ghost part = dirs@.take(end as int);
    proof {
        before_comma_prefix(dirs@, end as int);
    }
    let mut from: usize = 0;
    assert(part =~= dirs@.subrange(0, end as int));
    while from < end && is_white_space(dirs.get_char(from))
        invariant
            end <= dirs@.len(),
            from <= end,
            trim_start(part) == trim_start(dirs@.subrange(from as int, end as int)),
        decreases end - from,
    {
        assert(dirs@.subrange(from as int, end as int).drop_first() =~= dirs@.subrange(
            from + 1,
            end as int,
        ));
        from = from + 1;
    }
    let ghost rest = dirs@.subrange(from as int, end as int);
    assert(trim_start(part) == rest);
    let mut to: usize = end;
    while from < to && is_white_space(dirs.get_char(to - 1))
        invariant
            from <= to <= end <= dirs@.len(),
            trim_end(rest) == trim_end(dirs@.subrange(from as int, to as int)),
        decreases to,
    {
        assert(dirs@.subrange(from as int, to as int).drop_last() =~= dirs@.subrange(
            from as int,
            to - 1,
        ));
        to = to - 1;
    }
    assert(trim_end(rest) == dirs@.subrange(from as int, to as int));
    if from == to {
        None
    } else {
        Some(String::from_str(dirs.substring_char(from, to)))
    }
}

/// The path of the server's socket in a directory.
pub fn socket_path(dir: &str, port: u16) -> (r: String)
    ensures
        r@ == socket_path_of(dir@, port as nat),
{
    let mut path = String::from_str(dir);
    path.append("/.s.PGSQL.");
    push_decimal(&mut path, port as u64);
    path
}

impl Opts {
    /// Where these options connect to.
    pub fn target(&self, unix_sockets: bool) -> (r: Result<Target, Error>)
        ensures
            match r {
                Ok(t) => target_of(*self, unix_sockets) == Ok::<TargetView, ErrorView>(t@),
                Err(e) => target_of(*self, unix_sockets) == Err::<TargetView, ErrorView>(e@),
            },
    {
        if let Some(path) = &self.socket {
            if unix_sockets {
                return Ok(Target::Unix(path.clone()));
            }
            return Err(
                Error::Unsupported(
                    String::from_str("Unix sockets are not supported on this platform"),
                ),
            );
        }
        if self.host.as_str().is_empty() {
            return Err(Error::InvalidUsage(String::from_str("host is empty")));
        }
        let mut address = self.host.clone();
        address.append(":");
        push_decimal(&mut address, self.port as u64);
        Ok(Target::Tcp(address))
    }

    /// Whether a connection over TCP, to the loopback or not, is to move to a Unix socket.
    pub fn wants_upgrade(&self, tcp_loopback: bool) -> (r: bool)
        ensures
            r == (self.upgrade_to_unix_socket && tcp_loopback),
    {
        self.upgrade_to_unix_socket && tcp_loopback
    }

    /// The same options for the connection over the Unix socket, which does not move again.
    pub fn without_upgrade(&self) -> (r: Opts)
        ensures
            r == (Opts { upgrade_to_unix_socket: false, ..*self }),
    {
        let socket = match &self.socket {
            Some(path) => Some(path.clone()),
            None => None,
        };
        Opts {
            socket,
            host: self.host.clone(),
            port: self.port,
            upgrade_to_unix_socket: false,
            pool_max_idle_conn: self.pool_max_idle_conn,
        }
    }

    /// The socket to move to, once the server was asked for its socket directories: none where
    /// the query failed, returned no row, or named no directory first.
    pub fn upgrade_path(&self, answer: Result<Option<String>, Error>) -> (r: Option<String>)
        ensures
            match r {
                Some(path) => answer matches Ok(Some(dirs)) && first_dir(dirs@) matches Some(dir)
                    && path@ == socket_path_of(dir, self.port as nat),
                None => !(answer matches Ok(Some(dirs)) && first_dir(dirs@) is Some),
            },
    {
        match answer {
            Ok(Some(dirs)) => match first_socket_dir(dirs.as_str()) {
                Some(dir) => Some(socket_path(dir.as_str(), self.port)),
                None => None,
            },
            _ => None,
        }
    }
}

/// The connection to go on with: the one over the Unix socket where it came about, else the
/// one that is there.
pub fn upgraded_or<C>(current: C, upgraded: Result<C, Error>) -> (r: C)
    ensures
        r == match upgraded {
            Ok(c) => c,
            Err(_) => current,
        },
{
    match upgraded {
        Ok(c) => c,
        Err(_) => current,
    }
}

/// The socket of a server lies in the directory and is named after the port: behind the directory
/// and `/.s.PGSQL.` come digits that stand for it.
pub proof fn socket_path_names_the_port(dir: Seq<char>, port: nat)
    ensures
        ({
            let path = socket_path_of(dir, port);
            let k = dir.len() as int;
            &&& path.len() > k + 10
            &&& path.take(k) == dir
            &&& path.subrange(k, k + 10) == "/.s.PGSQL."@
            &&& all_digits(path.skip(k + 10))
            &&& number_in(path.skip(k + 10)) == port
        }),
{
    decimal_reads_back(port);
    reveal_strlit("/.s.PGSQL.");
    let path = socket_path_of(dir, port);
    let k = dir.len() as int;
    assert(path.take(k) =~= dir);
    assert(path.subrange(k, k + 10) =~= "/.s.PGSQL."@);
    assert(path.skip(k + 10) =~= decimal(port));
}

/// Servers on different ports, and servers with different directories of the same length, have
/// different sockets.
pub proof fn socket_paths_differ(dir: Seq<char>, port: nat, other_dir: Seq<char>, other_port: nat)
    requires
        dir.len() == other_dir.len(),
        socket_path_of(dir, port) == socket_path_of(other_dir, other_port),
    ensures
        dir == other_dir,
        port == other_port,
{
    socket_path_names_the_port(dir, port);
    socket_path_names_the_port(other_dir, other_port);
}

/// What [`socket_path`] returns names the port that it was given.
pub proof fn socket_path_is_for_its_port(dir: &str, port: u16, r: String)
    requires
        call_ensures(socket_path, (dir, port), r),
    ensures
        r@.len() > dir@.len() + 10,
        r@.take(dir@.len() as int) == dir@,
        r@.subrange(dir@.len() as int, dir@.len() as int + 10) == "/.s.PGSQL."@,
        number_in(r@.skip(dir@.len() as int + 10)) == port,
{
    socket_path_names_the_port(dir@, port as nat);
}

/// Without a socket among the options, [`Opts::target`] is the host, a colon and the port; with one
/// it is that socket. No host, and a socket where there are none, are refused.
pub proof fn target_is_where_the_options_say(
    opts: &Opts,
    unix_sockets: bool,
    r: Result<Target, Error>,
)
    requires
        call_ensures(Opts::target, (opts, unix_sockets), r),
    ensures
        match opts.socket {
            Some(path) => if unix_sockets {
                r matches Ok(Target::Unix(p)) && p@ == path@
            } else {
                r matches Err(e) && e@ == ErrorView::Unsupported(
                    "Unix sockets are not supported on this platform"@,
                )
            },
            None => if opts.host@.len() == 0 {
                r matches Err(e) && e@ == ErrorView::InvalidUsage("host is empty"@)
            } else {
                r matches Ok(Target::Tcp(a)) && {
                    let k = opts.host@.len() as int;
                    &&& a@.len() > k + 1
                    &&& a@.take(k) == opts.host@
                    &&& a@[k] == ':'
                    &&& all_digits(a@.skip(k + 1))
                    &&& number_in(a@.skip(k + 1)) == opts.port
                }
            },
        },
{
    decimal_reads_back(opts.port as nat);
    reveal_strlit(":");
    let k = opts.host@.len() as int;
    let address = opts.host@ + ":"@ + decimal(opts.port as nat);
    assert(address.take(k) =~= opts.host@);
    assert(address.skip(k + 1) =~= decimal(opts.port as nat));
}

/// `dir` is the first entry of a comma-separated list without the white space around it: it stands
/// at `from`, and the entry ends at `end`.
pub open spec fn first_entry(dirs: Seq<char>, dir: Seq<char>, from: int, end: int) -> bool {
    &&& 0 <= from && from + dir.len() <= end <= dirs.len()
    &&& dirs.subrange(from, from + dir.len()) == dir
    &&& end == dirs.len() || dirs[end] == ','
    &&& forall|i: int| 0 <= i < end ==> #[trigger] dirs[i] != ','
    &&& forall|i: int| 0 <= i < from ==> white_space(#[trigger] dirs[i])
    &&& forall|i: int| from + dir.len() <= i < end ==> white_space(#[trigger] dirs[i])
    &&& dir.len() > 0 ==> !white_space(dir[0]) && !white_space(dir.last())
}

proof fn before_comma_ends(s: Seq<char>) -> (end: int)
    ensures
        0 <= end <= s.len(),
        before_comma(s) == s.take(end),
        end == s.len() || s[end] == ',',
        forall|i: int| 0 <= i < end ==> #[trigger] s[i] != ',',
    decreases s.len(),
{
    if s.len() == 0 || s[0] == ',' {
        assert(s.take(0) =~= Seq::empty());
        0
    } else {
        let end = before_comma_ends(s.drop_first()) + 1;
        assert(before_comma(s) =~= s.take(end));
        assert forall|i: int| 0 <= i < end implies #[trigger] s[i] != ',' by {
            if i > 0 {
                assert(s[i] == s.drop_first()[i - 1]);
            }
        }
        end
    }
}

proof fn trim_start_begins(s: Seq<char>) -> (from: int)
    ensures
        0 <= from <= s.len(),
        trim_start(s) == s.skip(from),
        forall|i: int| 0 <= i < from ==> white_space(#[trigger] s[i]),
        from < s.len() ==> !white_space(s[from]),
    decreases s.len(),
{
    if s.len() > 0 && white_space(s[0]) {
        let from = trim_start_begins(s.drop_first()) + 1;
        assert(s.drop_first().skip(from - 1) =~= s.skip(from));
        assert forall|i: int| 0 <= i < from implies white_space(#[trigger] s[i]) by {
            if i > 0 {
                assert(s[i] == s.drop_first()[i - 1]);
            }
        }
        from
    } else {
        assert(s.skip(0) =~= s);
        0
    }
}

proof fn trim_end_ends(s: Seq<char>) -> (to: int)
    ensures
        0 <= to <= s.len(),
        trim_end(s) == s.take(to),
        forall|i: int| to <= i < s.len() ==> white_space(#[trigger] s[i]),
        to > 0 ==> !white_space(s[to - 1]),
    decreases s.len(),
{
    if s.len() > 0 && white_space(s.last()) {
        let to = trim_end_ends(s.drop_last());
        assert(s.drop_last().take(to) =~= s.take(to));
        assert forall|i: int| to <= i < s.len() implies white_space(#[trigger] s[i]) by {
            if i < s.len() - 1 {
                assert(s[i] == s.drop_last()[i]);
            }
        }
        to
    } else {
        assert(s.take(s.len() as int) =~= s);
        s.len() as int
    }
}

proof fn first_dir_is_the_first(s: Seq<char>) -> (r: (Seq<char>, int, int))
    ensures
        first_entry(s, r.0, r.1, r.2),
        first_dir(s) == (if r.0.len() == 0 {
            None
        } else {
            Some(r.0)
        }),
{
    let end = before_comma_ends(s);
    let entry = s.take(end);
    let from = trim_start_begins(entry);
    let rest = entry.skip(from);
    let to = trim_end_ends(rest);
    let dir = rest.take(to);
    assert(dir =~= s.subrange(from, from + to));
    assert forall|i: int| 0 <= i < from implies white_space(#[trigger] s[i]) by {
        assert(s[i] == entry[i]);
    }
    assert forall|i: int| from + to <= i < end implies white_space(#[trigger] s[i]) by {
        assert(s[i] == rest[i - from]);
    }
    if to > 0 {
        assert(dir[0] == entry[from]);
        assert(dir.last() == rest[to - 1]);
    }
    (dir, from, end)
}

/// [`first_socket_dir`] gives the first entry of the list, trimmed, and nothing where that entry is
/// empty or all white space.
pub proof fn first_socket_dir_is_the_first(dirs: &str, r: Option<String>)
    requires
        call_ensures(first_socket_dir, (dirs,), r),
    ensures
        match r {
            Some(dir) => dir@.len() > 0 && exists|from: int, end: int|
                #[trigger] first_entry(dirs@, dir@, from, end),
            None => exists|from: int, end: int|
                #[trigger] first_entry(dirs@, Seq::empty(), from, end),
        },
{
    let (dir, from, end) = first_dir_is_the_first(dirs@);
    assert(first_entry(dirs@, dir, from, end));
    if dir.len() == 0 {
        assert(dir =~= Seq::empty());
    }
}

/// A loopback connection moves to the socket in the first directory that the server names, for the
/// port of the options: [`Opts::upgrade_path`] is that path. No answer, no row and no directory leave
/// the connection where it is.
pub proof fn upgrade_goes_to_the_same_port(
    opts: &Opts,
    answer: Result<Option<String>, Error>,
    r: Option<String>,
)
    requires
        call_ensures(Opts::upgrade_path, (opts, answer), r),
    ensures
        match r {
            Some(path) => answer matches Ok(Some(dirs)) && exists|dir: Seq<char>, from: int, end: int|
                dir.len() > 0 && #[trigger] first_entry(dirs@, dir, from, end) && path@.len()
                    > dir.len() + 10 && path@.take(dir.len() as int) == dir && path@.subrange(
                    dir.len() as int,
                    dir.len() as int + 10,
                ) == "/.s.PGSQL."@ && number_in(path@.skip(dir.len() as int + 10)) == opts.port,
            None => answer matches Ok(Some(dirs)) ==> exists|from: int, end: int|
                #[trigger] first_entry(dirs@, Seq::empty(), from, end),
        },
{
    if let Ok(Some(dirs)) = answer {
        let (dir, from, end) = first_dir_is_the_first(dirs@);
        socket_path_names_the_port(dir, opts.port as nat);
        assert(first_entry(dirs@, dir, from, end));
        if dir.len() == 0 {
            assert(dir =~= Seq::empty());
        }
    }
}

/// The options for the connection over the socket are the same, but that it does not move again,
/// and a connection moves only where it is wanted and runs over the loopback.
pub proof fn upgrade_happens_once(
    opts: &Opts,
    loopback: bool,
    wanted: bool,
    over_socket: Opts,
    again: bool,
)
    requires
        call_ensures(Opts::wants_upgrade, (opts, loopback), wanted),
        call_ensures(Opts::without_upgrade, (opts,), over_socket),
        call_ensures(Opts::wants_upgrade, (&over_socket, loopback), again),
    ensures
        wanted <==> opts.upgrade_to_unix_socket && loopback,
        !again,
        over_socket.socket == opts.socket,
        over_socket.host == opts.host,
        over_socket.port == opts.port,
        over_socket.pool_max_idle_conn == opts.pool_max_idle_conn,
{
}

/// A client goes on with the connection over the socket where it came about, and else with the one
/// that it has.
pub proof fn upgrade_never_loses_the_connection<C>(current: C, upgraded: Result<C, Error>, r: C)
    requires
        call_ensures(upgraded_or::<C>, (current, upgraded), r),
    ensures
        upgraded matches Ok(c) ==> r == c,
        upgraded is Err ==> r == current,
{
}

/// White space are the characters that Unicode counts as such: the control characters from tab to
/// carriage return, the space, the next-line and no-break characters and the wide spaces.
pub proof fn white_space_is_that_of_unicode(c: char)
    ensures
        c as u32 <= 0xff ==> (white_space(c) <==> c == '\t' || c == '\n' || c as u32 == 11 || c as u32
            == 12 || c == '\r' || c == ' ' || c as u32 == 0x85 || c as u32 == 0xa0),
        c as u32 > 0xff ==> (white_space(c) <==> seq![
            0x1680u32, 0x2000, 0x2001, 0x2002, 0x2003, 0x2004, 0x2005, 0x2006, 0x2007, 0x2008,
            0x2009, 0x200a, 0x2028, 0x2029, 0x202f, 0x205f, 0x3000,
        ].contains(c as u32)),
{
    let wide = seq![
        0x1680u32, 0x2000, 0x2001, 0x2002, 0x2003, 0x2004, 0x2005, 0x2006, 0x2007, 0x2008, 0x2009,
        0x200a, 0x2028, 0x2029, 0x202f, 0x205f, 0x3000,
    ];
    let n = c as u32;
    if 0x2000 <= n <= 0x200a {
        assert(wide[n - 0x2000 + 1] == n);
    }
    assert(wide[0] == 0x1680 && wide[12] == 0x2028 && wide[13] == 0x2029 && wide[14] == 0x202f
        && wide[15] == 0x205f && wide[16] == 0x3000);
}

} // verus!
