//! Endpoint discovery: parsing the client's lockfile and its process command
//! line, choosing among candidate sources, and the diagnostic report.

use vstd::prelude::*;
use crate::text::{
    chars_of, contains, decimal, has_prefix_at, is_space, join, join_strings,
    lemma_scan_split_append, lemma_scan_split_plain, parse_u16, parse_u16_range, pieces,
    ranges_within, seq_contains, split, split_ranges, starts_with, string_views, trim, trim_end,
    trim_range, trim_start, u16_decimal, word_ranges, words,
};

verus! {

/// Port and password of a running client's API.
#[derive(Debug, Clone)]
pub struct LockfileData {
    pub port: u16,
    pub password: String,
}

impl View for LockfileData {
    type V = (u16, Seq<char>);

    open spec fn view(&self) -> (u16, Seq<char>) {
        (self.port, self.password@)
    }
}

/// Why a lockfile's contents were not accepted.
#[derive(Clone, Copy, Debug, PartialEq, Eq, Structural)]
pub enum ParseError {
    /// Fewer than five colon-separated fields.
    TooFewFields,
    /// The file belongs to the host process, not to the game client.
    HostClient,
    /// The port field is not a 16-bit unsigned integer.
    InvalidPort,
}

impl ParseError {
    pub open spec fn message_spec(self) -> Seq<char> {
        match self {
            ParseError::TooFewFields => "Invalid lockfile format"@,
            ParseError::HostClient => "Riot Client lockfile (not League Client)"@,
            ParseError::InvalidPort => "Invalid port in lockfile"@,
        }
    }

    /// Human-readable description of the error.
    pub fn message(&self) -> (r: String)
        ensures
            r@ == self.message_spec(),
    {
        match self {
            ParseError::TooFewFields => String::from_str("Invalid lockfile format"),
            ParseError::HostClient => String::from_str("Riot Client lockfile (not League Client)"),
            ParseError::InvalidPort => String::from_str("Invalid port in lockfile"),
        }
    }
}

/// What `str::to_lowercase` gives for a string.
pub uninterp spec fn lower_of(s: Seq<char>) -> Seq<char>;

/// Relies on `str::to_lowercase`: the result depends on the characters alone.
#[verifier::external_body]
fn to_lowercase(s: &str) -> (r: String)
    ensures
        r@ == lower_of(s@),
{
    s.to_lowercase()
}

/// A lower-cased process name that names the host process rather than the
/// game client: it mentions "riot" (or "riotclient") but not "league".
pub open spec fn is_host_only(folded: Seq<char>) -> bool {
    (contains(folded, "riot"@) || contains(folded, "riotclient"@)) && !contains(folded, "league"@)
}

/// Decides `is_host_only` on a name already folded to lower case.
pub fn is_host_only_name(folded: &str) -> (r: bool)
    ensures
        r == is_host_only(folded@),
{
    let cs = chars_of(folded);
    let riot = chars_of("riot");
    let riot_client = chars_of("riotclient");
    let league = chars_of("league");
    (seq_contains(&cs, &riot) || seq_contains(&cs, &riot_client)) && !seq_contains(&cs, &league)
}

/// The colon-separated fields of a lockfile, after trimming.
pub open spec fn lockfile_fields(s: Seq<char>) -> Seq<Seq<char>> {
    split(trim(s), ':')
}

/// The outcome of parsing lockfile contents `name:pid:port:password:protocol`.
pub open spec fn parse_lockfile(s: Seq<char>) -> Result<(u16, Seq<char>), ParseError> {
    let f = lockfile_fields(s);
    if f.len() < 5 {
        Err(ParseError::TooFewFields)
    } else if is_host_only(lower_of(f[0])) {
        Err(ParseError::HostClient)
    } else {
        match parse_u16(f[2]) {
            Some(port) => Ok((port, f[3])),
            None => Err(ParseError::InvalidPort),
        }
    }
}

/// The view of a parse result.
pub open spec fn result_view(r: Result<LockfileData, ParseError>) -> Result<
    (u16, Seq<char>),
    ParseError,
> {
    match r {
        Ok(d) => Ok(d@),
        Err(e) => Err(e),
    }
}

/// Parses lockfile contents: the port and password fields of a line of at
/// least five colon-separated fields, unless it belongs to the host process.
pub fn parse_lockfile_contents(contents: &str) -> (r: Result<LockfileData, ParseError>)
    ensures
        result_view(r) == parse_lockfile(contents@),
{
    let cs = chars_of(contents);
    let (a, b) = trim_range(&cs, 0, cs.len());
    assert(cs@.subrange(0, cs@.len() as int) =~= cs@);
    let rs = split_ranges(&cs, a, b, ':');
    let ghost f = lockfile_fields(contents@);
    assert(pieces(cs@, rs@) == f);
    if rs.len() < 5 {
        return Err(ParseError::TooFewFields);
    }
    let (n0, n1) = rs[0];
    assert(f[0] == cs@.subrange(n0 as int, n1 as int));
    let folded = to_lowercase(contents.substring_char(n0, n1));
    if is_host_only_name(folded.as_str()) {
        return Err(ParseError::HostClient);
    }
    let (p0, p1) = rs[2];
    assert(f[2] == cs@.subrange(p0 as int, p1 as int));
    match parse_u16_range(&cs, p0, p1) {
        Some(port) => {
            let (w0, w1) = rs[3];
            assert(f[3] == cs@.subrange(w0 as int, w1 as int));
            let password = String::from_str(contents.substring_char(w0, w1));
            Ok(LockfileData { port, password })
        },
        None => Err(ParseError::InvalidPort),
    }
}


/// The first of `ws` that starts with `prefix`.
pub open spec fn first_with_prefix(ws: Seq<Seq<char>>, prefix: Seq<char>) -> Option<Seq<char>>
    decreases ws.len(),
{
    if ws.len() == 0 {
        None
    } else if starts_with(ws[0], prefix) {
        Some(ws[0])
    } else {
        first_with_prefix(ws.drop_first(), prefix)
    }
}

/// The value of the first word of `s` that starts with `flag`, if any.
pub open spec fn flag_value(s: Seq<char>, flag: Seq<char>) -> Option<Seq<char>> {
    match first_with_prefix(words(s), flag) {
        Some(w) => Some(w.subrange(flag.len() as int, w.len() as int)),
        None => None,
    }
}

/// Port and token named on a process command line by `--app-port=` and
/// `--remoting-auth-token=`; the first word with each flag counts.
pub open spec fn parse_commandline(s: Seq<char>) -> Option<(u16, Seq<char>)> {
    match flag_value(s, "--app-port="@) {
        None => None,
        Some(p) => match parse_u16(p) {
            None => None,
            Some(port) => match flag_value(s, "--remoting-auth-token="@) {
                None => None,
                Some(token) => Some((port, token)),
            },
        },
    }
}

/// The view of an optional `LockfileData`.
pub open spec fn option_view(o: Option<LockfileData>) -> Option<(u16, Seq<char>)> {
    match o {
        Some(d) => Some(d@),
        None => None,
    }
}

/// Index into `rs` of the first word of `cs` that starts with `prefix`.
fn find_prefixed(cs: &Vec<char>, rs: &Vec<(usize, usize)>, prefix: &Vec<char>) -> (r: Option<
    usize,
>)
    requires
        ranges_within(rs@, 0, cs@.len() as int),
    ensures
        match r {
            Some(k) => k < rs@.len() && starts_with(pieces(cs@, rs@)[k as int], prefix@)
                && first_with_prefix(pieces(cs@, rs@), prefix@) == Some(pieces(cs@, rs@)[k as int]),
            None => first_with_prefix(pieces(cs@, rs@), prefix@) is None,
        },
{
    let ghost ws = pieces(cs@, rs@);
    let mut k: usize = 0;
    assert(ws.subrange(0, ws.len() as int) =~= ws);
    while k < rs.len()
        invariant
            k <= rs@.len(),
            ws == pieces(cs@, rs@),
            ranges_within(rs@, 0, cs@.len() as int),
            first_with_prefix(ws, prefix@) == first_with_prefix(
                ws.subrange(k as int, ws.len() as int),
                prefix@,
            ),
        decreases rs@.len() - k,
    {
        let (a, b) = rs[k];
        assert(ws[k as int] == cs@.subrange(a as int, b as int));
        assert(ws.subrange(k as int, ws.len() as int).drop_first() =~= ws.subrange(
            k + 1,
            ws.len() as int,
        ));
        if has_prefix_at(cs, a, b, prefix) {
            return Some(k);
        }
        k = k + 1;
    }
    None
}

/// Extracts port and token from a process command line.
pub fn parse_process_commandline(line: &str) -> (r: Option<LockfileData>)
    ensures
        option_view(r) == parse_commandline(line@),
{
    let cs = chars_of(line);
    assert(cs@.subrange(0, cs@.len() as int) =~= cs@);
    let rs = word_ranges(&cs, 0, cs.len());
    let ghost ws = pieces(cs@, rs@);
    let port_flag = chars_of("--app-port=");
    let token_flag = chars_of("--remoting-auth-token=");
    let port = match find_prefixed(&cs, &rs, &port_flag) {
        None => return None,
        Some(k) => {
            let (a, b) = rs[k];
            assert(ws[k as int] == cs@.subrange(a as int, b as int));
            assert(cs@.subrange(a as int, b as int).subrange(
                port_flag@.len() as int,
                (b - a) as int,
            ) =~= cs@.subrange(a + port_flag@.len(), b as int));
            match parse_u16_range(&cs, a + port_flag.len(), b) {
                None => return None,
                Some(p) => p,
            }
        },
    };
    match find_prefixed(&cs, &rs, &token_flag) {
        None => None,
        Some(k) => {
            let (a, b) = rs[k];
            assert(ws[k as int] == cs@.subrange(a as int, b as int));
            assert(cs@.subrange(a as int, b as int).subrange(
                token_flag@.len() as int,
                (b - a) as int,
            ) =~= cs@.subrange(a + token_flag@.len(), b as int));
            let password = String::from_str(line.substring_char(a + token_flag.len(), b));
            Some(LockfileData { port, password })
        },
    }
}

/// The first of `ls` from which a command line yields port and token.
pub open spec fn first_commandline(ls: Seq<Seq<char>>) -> Option<(u16, Seq<char>)>
    decreases ls.len(),
{
    if ls.len() == 0 {
        None
    } else {
        match parse_commandline(ls[0]) {
            Some(v) => Some(v),
            None => first_commandline(ls.drop_first()),
        }
    }
}

/// The lines of a process listing that hold command lines: all of them, or
/// all but the first when the listing starts with a header.
pub open spec fn listing_lines(s: Seq<char>, has_header: bool) -> Seq<Seq<char>> {
    let ls = split(s, '\n');
    if has_header {
        ls.drop_first()
    } else {
        ls
    }
}

/// Port and token from the first command line of a process listing that
/// names both.
pub fn read_from_process(listing: &str, has_header: bool) -> (r: Option<LockfileData>)
    ensures
        option_view(r) == first_commandline(listing_lines(listing@, has_header)),
{
    let cs = chars_of(listing);
    assert(cs@.subrange(0, cs@.len() as int) =~= cs@);
    let rs = split_ranges(&cs, 0, cs.len(), '\n');
    let ghost ls = pieces(cs@, rs@);
    let mut k: usize = if has_header {
        1
    } else {
        0
    };
    assert(ls.len() == rs@.len());
    assert(ls.len() >= 1);
    assert(listing_lines(listing@, has_header) =~= ls.subrange(k as int, ls.len() as int));
    while k < rs.len()
        invariant
            k <= rs@.len() == ls.len(),
            ls == pieces(cs@, rs@),
            cs@ == listing@,
            ranges_within(rs@, 0, cs@.len() as int),
            first_commandline(listing_lines(listing@, has_header)) == first_commandline(
                ls.subrange(k as int, ls.len() as int),
            ),
        decreases rs@.len() - k,
    {
        let (a, b) = rs[k];
        assert(ls[k as int] == cs@.subrange(a as int, b as int));
        assert(ls.subrange(k as int, ls.len() as int).drop_first() =~= ls.subrange(
            k + 1,
            ls.len() as int,
        ));
        let found = parse_process_commandline(listing.substring_char(a, b));
        if found.is_some() {
            return found;
        }
        k = k + 1;
    }
    None
}


/// A candidate lockfile: its path as shown to the user, whether it exists,
/// and its contents where it could be read.
#[derive(Debug, Clone)]
pub struct Candidate {
    pub path: String,
    pub exists: bool,
    pub contents: Option<String>,
}

/// What a candidate lockfile yields, if anything.
pub open spec fn candidate_outcome(c: Candidate) -> Option<(u16, Seq<char>)> {
    match c.contents {
        Some(t) => match parse_lockfile(t@) {
            Ok(v) => Some(v),
            Err(_) => None,
        },
        None => None,
    }
}

/// What the first candidate that parses yields; the order is the order of trial.
pub open spec fn first_lockfile(cs: Seq<Candidate>) -> Option<(u16, Seq<char>)>
    decreases cs.len(),
{
    if cs.len() == 0 {
        None
    } else {
        match candidate_outcome(cs[0]) {
            Some(v) => Some(v),
            None => first_lockfile(cs.drop_first()),
        }
    }
}

/// The paths of the candidates.
pub open spec fn candidate_paths(cs: Seq<Candidate>) -> Seq<Seq<char>> {
    cs.map_values(|c: Candidate| c.path@)
}

/// The message when no source yields a connection: it names every path tried.
pub open spec fn not_found_message(cs: Seq<Candidate>) -> Seq<char> {
    "League Client not found. Ensure League of Legends is open (home screen). Tried: "@ + join(
        candidate_paths(cs),
        ", "@,
    )
}

/// Where discovery stands.
#[derive(Debug)]
pub enum Discovery {
    /// A source yielded a connection.
    Found(LockfileData),
    /// No lockfile parsed: the running processes must be inspected next.
    InspectProcesses,
    /// No source yielded a connection; the message names the paths tried.
    NotFound(String),
}

/// The view of a discovery step: `None` while processes are still to be
/// inspected, else the connection or the message.
pub open spec fn discovery_view(d: Discovery) -> Option<Result<(u16, Seq<char>), Seq<char>>> {
    match d {
        Discovery::Found(x) => Some(Ok(x@)),
        Discovery::InspectProcesses => None,
        Discovery::NotFound(m) => Some(Err(m@)),
    }
}

/// Discovery over the candidate lockfiles in order, then over what process
/// inspection found (`None` while it has not been run).
pub open spec fn discover(cs: Seq<Candidate>, inspected: Option<Option<(u16, Seq<char>)>>) -> Option<
    Result<(u16, Seq<char>), Seq<char>>,
> {
    match first_lockfile(cs) {
        Some(v) => Some(Ok(v)),
        None => match inspected {
            None => None,
            Some(Some(v)) => Some(Ok(v)),
            Some(None) => Some(Err(not_found_message(cs))),
        },
    }
}

/// The view of what process inspection found.
pub open spec fn inspected_view(i: Option<Option<LockfileData>>) -> Option<
    Option<(u16, Seq<char>)>,
> {
    match i {
        Some(o) => Some(option_view(o)),
        None => None,
    }
}

/// What the first candidate that parses yields.
fn first_parsed(candidates: &Vec<Candidate>) -> (r: Option<LockfileData>)
    ensures
        option_view(r) == first_lockfile(candidates@),
{
    let ghost cs = candidates@;
    let mut k: usize = 0;
    assert(cs.subrange(0, cs.len() as int) =~= cs);
    while k < candidates.len()
        invariant
            k <= cs.len(),
            cs == candidates@,
            first_lockfile(cs) == first_lockfile(cs.subrange(k as int, cs.len() as int)),
        decreases cs.len() - k,
    {
        assert(cs.subrange(k as int, cs.len() as int).drop_first() =~= cs.subrange(
            k + 1,
            cs.len() as int,
        ));
        match &candidates[k].contents {
            Some(t) => {
                match parse_lockfile_contents(t.as_str()) {
                    Ok(d) => {
                        return Some(d);
                    },
                    Err(_) => {},
                }
            },
            None => {},
        }
        k = k + 1;
    }
    assert(cs.subrange(k as int, cs.len() as int) =~= seq![]);
    None
}

/// Builds the not-found message from the candidates' paths.
fn not_found(candidates: &Vec<Candidate>) -> (r: String)
    ensures
        r@ == not_found_message(candidates@),
{
    let mut paths: Vec<String> = Vec::new();
    let mut k: usize = 0;
    while k < candidates.len()
        invariant
            k <= candidates@.len(),
            string_views(paths@) =~= candidate_paths(candidates@).subrange(0, k as int),
        decreases candidates@.len() - k,
    {
        let path = candidates[k].path.clone();
        let ghost before = paths@;
        paths.push(path);
        assert(paths@ == before.push(path));
        assert(string_views(paths@) =~= string_views(before).push(path@));
        k = k + 1;
    }
    assert(string_views(paths@) =~= candidate_paths(candidates@));
    let mut msg = String::from_str(
        "League Client not found. Ensure League of Legends is open (home screen). Tried: ",
    );
    let joined = join_strings(&paths, ", ");
    msg.append(joined.as_str());
    msg
}

/// One step of discovery: the first candidate lockfile that parses wins;
/// only when none does are processes inspected, and only when that finds
/// nothing either is the connection not found.
pub fn read_lockfile(candidates: &Vec<Candidate>, inspected: Option<Option<LockfileData>>) -> (r:
    Discovery)
    ensures
        discovery_view(r) == discover(candidates@, inspected_view(inspected)),
{
    match first_parsed(candidates) {
        Some(d) => Discovery::Found(d),
        None => match inspected {
            None => Discovery::InspectProcesses,
            Some(Some(d)) => Discovery::Found(d),
            Some(None) => Discovery::NotFound(not_found(candidates)),
        },
    }
}


/// What the report says of readable contents `t`: the leading field and the
/// parse outcome, both taken from the trimmed text.
pub open spec fn contents_report(t: Seq<char>) -> Seq<char> {
    " process="@ + split(trim(t), ':')[0] + match parse_lockfile(trim(t)) {
        Ok(v) => " port="@ + decimal(v.0 as nat) + " (League Client)"@,
        Err(e) => " parse_err="@ + e.message_spec(),
    }
}

/// The report line of one candidate.
pub open spec fn candidate_report(c: Candidate) -> Seq<char> {
    c.path@ + ": "@ + (if c.exists {
        "exists"@
    } else {
        "absent"@
    }) + (if c.exists && c.contents is Some {
        contents_report(c.contents->Some_0@)
    } else {
        seq![]
    })
}

/// The report line of process inspection, where it was run.
pub open spec fn process_report(found: Option<(u16, Seq<char>)>) -> Seq<char> {
    match found {
        Some(v) => "Process LeagueClient/Ux: port="@ + decimal(v.0 as nat) + " (use this)"@,
        None => "Process LeagueClientUx.exe / LeagueClient.exe: not found"@,
    }
}

/// All report lines: one per candidate, then one for process inspection.
pub open spec fn report_lines(cs: Seq<Candidate>, inspected: Option<Option<(u16, Seq<char>)>>) -> Seq<
    Seq<char>,
> {
    let ls = cs.map_values(|c: Candidate| candidate_report(c));
    match inspected {
        Some(found) => ls.push(process_report(found)),
        None => ls,
    }
}

/// The report text of one candidate's readable contents.
fn report_contents(t: &str) -> (r: String)
    ensures
        r@ == contents_report(t@),
{
    let cs = chars_of(t);
    assert(cs@.subrange(0, cs@.len() as int) =~= cs@);
    let (a, b) = trim_range(&cs, 0, cs.len());
    let preview = t.substring_char(a, b);
    let rs = split_ranges(&cs, a, b, ':');
    assert(split(cs@.subrange(a as int, b as int), ':').len() >= 1);
    assert(pieces(cs@, rs@).len() == rs@.len() >= 1);
    assert(pieces(cs@, rs@)[0] == cs@.subrange(rs@[0].0 as int, rs@[0].1 as int));
    let (f0, f1) = rs[0];
    let mut out = String::from_str(" process=");
    out.append(t.substring_char(f0, f1));
    match parse_lockfile_contents(preview) {
        Ok(d) => {
            out.append(" port=");
            let digits = u16_decimal(d.port);
            out.append(digits.as_str());
            out.append(" (League Client)");
        },
        Err(e) => {
            out.append(" parse_err=");
            let m = e.message();
            out.append(m.as_str());
        },
    }
    out
}

/// The report line of one candidate.
fn report_candidate(c: &Candidate) -> (r: String)
    ensures
        r@ == candidate_report(*c),
{
    let mut line = c.path.clone();
    line.append(": ");
    if c.exists {
        line.append("exists");
        match &c.contents {
            Some(t) => {
                let detail = report_contents(t.as_str());
                line.append(detail.as_str());
            },
            None => {},
        }
    } else {
        line.append("absent");
    }
    line
}

/// Diagnostic report of every candidate and of process inspection (`None`
/// where it is not available), one line each; it never fails.
pub fn debug_info(candidates: &Vec<Candidate>, inspected: &Option<Option<LockfileData>>) -> (r:
    Result<String, String>)
    ensures
        r matches Ok(text) && text@ == join(
            report_lines(candidates@, inspected_view(*inspected)),
            "\n"@,
        ),
{
    let mut lines: Vec<String> = Vec::new();
    let mut k: usize = 0;
    while k < candidates.len()
        invariant
            k <= candidates@.len(),
            string_views(lines@) =~= candidates@.map_values(|c: Candidate| candidate_report(c)).subrange(0, k as int),
        decreases candidates@.len() - k,
    {
        let line = report_candidate(&candidates[k]);
        let ghost before = lines@;
        lines.push(line);
        assert(string_views(lines@) =~= string_views(before).push(line@));
        k = k + 1;
    }
    let ghost ls = lines@;
    match inspected {
        Some(Some(d)) => {
            let mut line = String::from_str("Process LeagueClient/Ux: port=");
            let digits = u16_decimal(d.port);
            line.append(digits.as_str());
            line.append(" (use this)");
            lines.push(line);
            assert(string_views(lines@) =~= string_views(ls).push(line@));
        },
        Some(None) => {
            let line = String::from_str("Process LeagueClientUx.exe / LeagueClient.exe: not found");
            lines.push(line);
            assert(string_views(lines@) =~= string_views(ls).push(line@));
        },
        None => {},
    }
    assert(string_views(lines@) =~= report_lines(candidates@, inspected_view(*inspected)));
    Ok(join_strings(&lines, "\n"))
}


/// The lockfile line with the five given fields.
pub open spec fn lockfile_line(
    name: Seq<char>,
    pid: Seq<char>,
    port: Seq<char>,
    password: Seq<char>,
    protocol: Seq<char>,
) -> Seq<char> {
    name + ":"@ + pid + ":"@ + port + ":"@ + password + ":"@ + protocol
}

/// A piece without colons.
pub open spec fn colon_free(s: Seq<char>) -> bool {
    forall|i: int| 0 <= i < s.len() ==> s[i] != ':'
}

/// A well-formed five-field line whose port field parses as a 16-bit
/// integer, and whose name is not the host process's, parses to exactly its
/// third and fourth fields.
pub proof fn lemma_well_formed_line_parses(
    name: Seq<char>,
    pid: Seq<char>,
    port: Seq<char>,
    password: Seq<char>,
    protocol: Seq<char>,
)
    requires
        colon_free(name),
        colon_free(pid),
        colon_free(port),
        colon_free(password),
        colon_free(protocol),
        !is_space(lockfile_line(name, pid, port, password, protocol)[0]),
        !is_space(lockfile_line(name, pid, port, password, protocol).last()),
        !is_host_only(lower_of(name)),
        parse_u16(port) is Some,
    ensures
        parse_lockfile(lockfile_line(name, pid, port, password, protocol)) == Ok::<
            (u16, Seq<char>),
            ParseError,
        >((parse_u16(port)->Some_0, password)),
{
    reveal_strlit(":");
    let line = lockfile_line(name, pid, port, password, protocol);
    assert(trim_start(line) == line);
    assert(trim_end(line) == line);
    let s1 = name.push(':') + pid;
    let s2 = s1.push(':') + port;
    let s3 = s2.push(':') + password;
    assert(line =~= s3.push(':') + protocol);
    lemma_scan_split_plain(name, ':');
    assert(split(name, ':') =~= seq![name]);
    lemma_scan_split_append(name, pid, ':');
    lemma_scan_split_append(s1, port, ':');
    lemma_scan_split_append(s2, password, ':');
    lemma_scan_split_append(s3, protocol, ':');
    assert(lockfile_fields(line) =~= seq![name, pid, port, password, protocol]);
}

/// A line with fewer than five fields is rejected for that reason, whatever it holds.
pub proof fn lemma_short_line_rejected(s: Seq<char>)
    requires
        lockfile_fields(s).len() < 5,
    ensures
        parse_lockfile(s) == Err::<(u16, Seq<char>), ParseError>(ParseError::TooFewFields),
{
}

/// Discovery returns what the first parsing lockfile yields, before and
/// regardless of process inspection.
pub proof fn lemma_first_parsing_lockfile_wins(
    cs: Seq<Candidate>,
    k: int,
    inspected: Option<Option<(u16, Seq<char>)>>,
)
    requires
        0 <= k < cs.len(),
        candidate_outcome(cs[k]) is Some,
        forall|j: int| 0 <= j < k ==> candidate_outcome(#[trigger] cs[j]) is None,
    ensures
        discover(cs, inspected) == Some(
            Ok::<(u16, Seq<char>), Seq<char>>(candidate_outcome(cs[k])->Some_0),
        ),
{
    lemma_first_lockfile_at(cs, k);
}

proof fn lemma_first_lockfile_at(cs: Seq<Candidate>, k: int)
    requires
        0 <= k < cs.len(),
        candidate_outcome(cs[k]) is Some,
        forall|j: int| 0 <= j < k ==> candidate_outcome(#[trigger] cs[j]) is None,
    ensures
        first_lockfile(cs) == candidate_outcome(cs[k]),
    decreases k,
{
    if k > 0 {
        let rest = cs.drop_first();
        assert forall|j: int| 0 <= j < k - 1 implies candidate_outcome(#[trigger] rest[j]) is None by {
            assert(rest[j] == cs[j + 1]);
        }
        assert(candidate_outcome(cs[0]) is None);
        lemma_first_lockfile_at(rest, k - 1);
    }
}

} // verus!
