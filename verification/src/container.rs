//! Container types, configuration builders and input validation.
//!
//! Every value that ends up on a container runtime's command line is checked
//! here first: image names, container names, hostnames, environment variable
//! keys, volume paths and the working directory.

use vstd::prelude::*;
use vstd::string::*;
use crate::text::{split_at_char, split_chars, alnum, alpha, chars_of, contains_char, is_alnum, is_alpha, lit, string_of, utf8_len, utf8_longer_than};

verus! {

broadcast use vstd::string::group_string_axioms;

/// Errors raised while checking container settings.
#[derive(Debug)]
pub enum ContainerError {
    /// A configuration value is malformed or unsafe.
    InvalidInput(String),
}

/// Result of a container operation.
pub type ContainerResult<T> = Result<T, ContainerError>;

/// `r` is `Ok` when no message is expected and carries exactly the expected
/// message otherwise.
pub open spec fn outcome_is(r: ContainerResult<()>, expected: Option<Seq<char>>) -> bool {
    match expected {
        None => r is Ok,
        Some(m) => match r {
            Err(ContainerError::InvalidInput(msg)) => msg@ == m,
            Ok(_) => false,
        },
    }
}

// ---------------------------------------------------------------------------
// Character classes
// ---------------------------------------------------------------------------

/// The character sets that the validators accept.
pub enum CharClass {
    /// Alphanumeric, `.`, `-`, `_`, `/`, `:`, `@`.
    Image,
    /// Alphanumeric, `-`, `_`.
    ContainerName,
    /// Alphanumeric, `-`.
    HostnameLabel,
    /// Alphanumeric, `_`.
    EnvKey,
}

pub open spec fn in_class(cls: CharClass, c: char) -> bool {
    match cls {
        CharClass::Image => is_alnum(c) || c == '.' || c == '-' || c == '_' || c == '/' || c == ':'
            || c == '@',
        CharClass::ContainerName => is_alnum(c) || c == '-' || c == '_',
        CharClass::HostnameLabel => is_alnum(c) || c == '-',
        CharClass::EnvKey => is_alnum(c) || c == '_',
    }
}

pub open spec fn all_in_class(cls: CharClass, s: Seq<char>) -> bool {
    forall|i: int| 0 <= i < s.len() ==> in_class(cls, #[trigger] s[i])
}

fn class_member(cls: &CharClass, c: char) -> (r: bool)
    ensures
        r == in_class(*cls, c),
{
    match cls {
        CharClass::Image => alnum(c) || c == '.' || c == '-' || c == '_' || c == '/' || c == ':'
            || c == '@',
        CharClass::ContainerName => alnum(c) || c == '-' || c == '_',
        CharClass::HostnameLabel => alnum(c) || c == '-',
        CharClass::EnvKey => alnum(c) || c == '_',
    }
}

fn all_members(cls: &CharClass, v: &Vec<char>) -> (r: bool)
    ensures
        r == all_in_class(*cls, v@),
{
    let mut i: usize = 0;
    while i < v.len()
        invariant
            i <= v.len(),
            forall|j: int| 0 <= j < i ==> in_class(*cls, #[trigger] v@[j]),
        decreases v.len() - i,
    {
        if !class_member(cls, v[i]) {
            return false;
        }
        i = i + 1;
    }
    true
}

// ---------------------------------------------------------------------------
// Image names
// ---------------------------------------------------------------------------

/// `s` contains two consecutive dots.
pub open spec fn has_double_dot(s: Seq<char>) -> bool {
    exists|i: int| 0 <= i && i + 1 < s.len() && #[trigger] s[i] == '.' && s[i + 1] == '.'
}

/// The message `validate_image_name` reports for `s`, if any.
pub open spec fn image_name_error(s: Seq<char>) -> Option<Seq<char>> {
    if s.len() == 0 {
        Some("image name cannot be empty"@)
    } else if utf8_len(s) > 256 {
        Some("image name exceeds maximum length of 256 characters"@)
    } else if !all_in_class(CharClass::Image, s) {
        Some(
            "image name '"@ + s
                + "' contains invalid characters; only alphanumeric, '.', '-', '_', '/', ':', '@' are allowed"@,
        )
    } else if has_double_dot(s) {
        Some("image name cannot contain '..'"@)
    } else {
        None
    }
}

fn double_dot(v: &Vec<char>) -> (r: bool)
    ensures
        r == has_double_dot(v@),
{
    let mut i: usize = 0;
    while i < v.len()
        invariant
            i <= v.len(),
            forall|j: int| 0 <= j < i && j + 1 < v@.len() ==> !(#[trigger] v@[j] == '.' && v@[j + 1]
                == '.'),
        decreases v.len() - i,
    {
        if i + 1 < v.len() && v[i] == '.' && v[i + 1] == '.' {
            return true;
        }
        i = i + 1;
    }
    false
}

fn invalid(msg: String) -> (r: ContainerResult<()>)
    ensures
        r matches Err(ContainerError::InvalidInput(m)) && m@ == msg@,
{
    Err(ContainerError::InvalidInput(msg))
}

/// Validate a Docker/OCI image name of the form
/// `[registry/][namespace/]name[:tag][@digest]`.
pub fn validate_image_name(image: &str) -> (r: ContainerResult<()>)
    ensures
        outcome_is(r, image_name_error(image@)),
{
    let v = chars_of(image);
    if v.len() == 0 {
        return invalid(lit("image name cannot be empty"));
    }
    if utf8_longer_than(&v, 256) {
        return invalid(lit("image name exceeds maximum length of 256 characters"));
    }
    if !all_members(&CharClass::Image, &v) {
        let mut m = lit("image name '");
        m.append(image);
        m.append(
            "' contains invalid characters; only alphanumeric, '.', '-', '_', '/', ':', '@' are allowed",
        );
        return invalid(m);
    }
    if double_dot(&v) {
        return invalid(lit("image name cannot contain '..'"));
    }
    Ok(())
}

// ---------------------------------------------------------------------------
// Container names
// ---------------------------------------------------------------------------

/// The message `validate_container_name` reports for `s`, if any.
pub open spec fn container_name_error(s: Seq<char>) -> Option<Seq<char>> {
    if s.len() == 0 {
        Some("container name cannot be empty"@)
    } else if utf8_len(s) > 128 {
        Some("container name exceeds maximum length of 128 characters"@)
    } else if !(is_alpha(s[0]) || s[0] == '_') {
        Some("container name must start with a letter or underscore"@)
    } else if !all_in_class(CharClass::ContainerName, s) {
        Some(
            "container name '"@ + s
                + "' contains invalid characters; only alphanumeric, '-', '_' are allowed"@,
        )
    } else {
        None
    }
}

/// Validate a container name: alphanumeric with `-` and `_`, starting with a
/// letter or `_`, at most 128 bytes.
pub fn validate_container_name(name: &str) -> (r: ContainerResult<()>)
    ensures
        outcome_is(r, container_name_error(name@)),
{
    let v = chars_of(name);
    if v.len() == 0 {
        return invalid(lit("container name cannot be empty"));
    }
    if utf8_longer_than(&v, 128) {
        return invalid(lit("container name exceeds maximum length of 128 characters"));
    }
    let first = v[0];
    if !alpha(first) && first != '_' {
        return invalid(lit("container name must start with a letter or underscore"));
    }
    if !all_members(&CharClass::ContainerName, &v) {
        let mut m = lit("container name '");
        m.append(name);
        m.append("' contains invalid characters; only alphanumeric, '-', '_' are allowed");
        return invalid(m);
    }
    Ok(())
}

// ---------------------------------------------------------------------------
// Hostnames
// ---------------------------------------------------------------------------

/// The message reported for one dot-separated label of `host`, if any.
pub open spec fn label_error(l: Seq<char>, host: Seq<char>) -> Option<Seq<char>> {
    if l.len() == 0 {
        Some("hostname cannot have empty labels"@)
    } else if utf8_len(l) > 63 {
        Some("hostname label exceeds maximum length of 63 characters"@)
    } else if !is_alnum(l[0]) || !is_alnum(l.last()) {
        Some("hostname labels must start and end with alphanumeric characters"@)
    } else if !all_in_class(CharClass::HostnameLabel, l) {
        Some("hostname '"@ + host + "' contains invalid characters"@)
    } else {
        None
    }
}

/// The first label error in `ls`, scanning left to right.
pub open spec fn labels_error(ls: Seq<Seq<char>>, host: Seq<char>) -> Option<Seq<char>>
    decreases ls.len(),
{
    if ls.len() == 0 {
        None
    } else {
        match label_error(ls[0], host) {
            Some(m) => Some(m),
            None => labels_error(ls.drop_first(), host),
        }
    }
}

/// The message `validate_hostname` reports for `s`, if any.
pub open spec fn hostname_error(s: Seq<char>) -> Option<Seq<char>> {
    if s.len() == 0 {
        Some("hostname cannot be empty"@)
    } else if utf8_len(s) > 253 {
        Some("hostname exceeds maximum length of 253 characters"@)
    } else {
        labels_error(split_at_char(s, '.'), s)
    }
}

/// Validate a hostname following RFC 1123: dot-separated labels of
/// alphanumerics and hyphens, each at most 63 bytes, the whole at most 253.
pub fn validate_hostname(hostname: &str) -> (r: ContainerResult<()>)
    ensures
        outcome_is(r, hostname_error(hostname@)),
{
    let v = chars_of(hostname);
    if v.len() == 0 {
        return invalid(lit("hostname cannot be empty"));
    }
    if utf8_longer_than(&v, 253) {
        return invalid(lit("hostname exceeds maximum length of 253 characters"));
    }
    let labels = split_chars(&v, '.');
    let ghost ls = split_at_char(hostname@, '.');
    let mut i: usize = 0;
    assert(ls.subrange(0, ls.len() as int) =~= ls);
    while i < labels.len()
        invariant
            i <= labels@.len(),
            labels@.len() == ls.len(),
            forall|k: int| 0 <= k < labels@.len() ==> (#[trigger] labels@[k])@ == ls[k],
            hostname_error(hostname@) == labels_error(ls, hostname@),
            labels_error(ls, hostname@) == labels_error(ls.subrange(i as int, ls.len() as int), hostname@),
        decreases labels.len() - i,
    {
        let label = &labels[i];
        let ghost rest = ls.subrange(i as int, ls.len() as int);
        assert(rest[0] == label@);
        assert(rest.drop_first() =~= ls.subrange(i + 1, ls.len() as int));
        assert(labels_error(rest, hostname@) == match label_error(rest[0], hostname@) {
            Some(m) => Some(m),
            None => labels_error(rest.drop_first(), hostname@),
        });
        if label.len() == 0 {
            return invalid(lit("hostname cannot have empty labels"));
        }
        if utf8_longer_than(label, 63) {
            return invalid(lit("hostname label exceeds maximum length of 63 characters"));
        }
        let first = label[0];
        let last = label[label.len() - 1];
        if !alnum(first) || !alnum(last) {
            return invalid(
                lit("hostname labels must start and end with alphanumeric characters"),
            );
        }
        if !all_members(&CharClass::HostnameLabel, label) {
            let mut m = lit("hostname '");
            m.append(hostname);
            m.append("' contains invalid characters");
            return invalid(m);
        }
        i = i + 1;
    }
    assert(ls.subrange(i as int, ls.len() as int).len() == 0);
    Ok(())
}

// ---------------------------------------------------------------------------
// Environment variable keys
// ---------------------------------------------------------------------------

/// The message `validate_env_var_key` reports for `s`, if any.
pub open spec fn env_var_key_error(s: Seq<char>) -> Option<Seq<char>> {
    if s.len() == 0 {
        Some("environment variable key cannot be empty"@)
    } else if utf8_len(s) > 256 {
        Some("environment variable key exceeds maximum length of 256 characters"@)
    } else if !(is_alpha(s[0]) || s[0] == '_') {
        Some("environment variable key '"@ + s + "' must start with a letter or underscore"@)
    } else if !all_in_class(CharClass::EnvKey, s) {
        Some(
            "environment variable key '"@ + s
                + "' contains invalid characters; only alphanumeric and '_' are allowed"@,
        )
    } else {
        None
    }
}

/// Validate an environment variable name (POSIX style): letters, digits and
/// `_`, starting with a letter or `_`.
pub fn validate_env_var_key(key: &str) -> (r: ContainerResult<()>)
    ensures
        outcome_is(r, env_var_key_error(key@)),
{
    let v = chars_of(key);
    if v.len() == 0 {
        return invalid(lit("environment variable key cannot be empty"));
    }
    if utf8_longer_than(&v, 256) {
        return invalid(lit("environment variable key exceeds maximum length of 256 characters"));
    }
    let first = v[0];
    if !alpha(first) && first != '_' {
        let mut m = lit("environment variable key '");
        m.append(key);
        m.append("' must start with a letter or underscore");
        return invalid(m);
    }
    if !all_members(&CharClass::EnvKey, &v) {
        let mut m = lit("environment variable key '");
        m.append(key);
        m.append("' contains invalid characters; only alphanumeric and '_' are allowed");
        return invalid(m);
    }
    Ok(())
}

// ---------------------------------------------------------------------------
// Paths
// ---------------------------------------------------------------------------

/// Shell metacharacters refused in volume paths, in the order they are checked.
pub open spec fn dangerous_chars() -> Seq<char> {
    seq![
        '$', '`', '!', '&', '|', ';', '<', '>', '(', ')', '{', '}', '[', ']', '*', '?', '\\',
        '"', '\'', '\n', '\r',
    ]
}

/// The first character of `dangerous_chars()` at position `k` or later that
/// occurs in `s`.
pub open spec fn first_dangerous_from(s: Seq<char>, k: int) -> Option<char>
    decreases dangerous_chars().len() - k,
{
    if k < 0 || k >= dangerous_chars().len() {
        None
    } else if s.contains(dangerous_chars()[k]) {
        Some(dangerous_chars()[k])
    } else {
        first_dangerous_from(s, k + 1)
    }
}

/// The message `validate_volume_path` reports for `path` on `side`, if any.
pub open spec fn volume_path_error(path: Seq<char>, side: Seq<char>) -> Option<Seq<char>> {
    if path.len() == 0 {
        Some(side + " volume path cannot be empty"@)
    } else if utf8_len(path) > 4096 {
        Some(side + " volume path exceeds maximum length of 4096 characters"@)
    } else if path.contains('\0') {
        Some(side + " volume path cannot contain null bytes"@)
    } else {
        match first_dangerous_from(path, 0) {
            Some(c) => Some(
                side + " volume path contains dangerous character '"@ + seq![c] + "'"@,
            ),
            None => None,
        }
    }
}

fn dangerous_list() -> (r: Vec<char>)
    ensures
        r@ == dangerous_chars(),
{
    let r = vec![
        '$', '`', '!', '&', '|', ';', '<', '>', '(', ')', '{', '}', '[', ']', '*', '?', '\\',
        '"', '\'', '\n', '\r',
    ];
    assert(r@ =~= dangerous_chars());
    r
}

/// Validate a volume path on the `side` ("host" or "container") of a mount:
/// non-empty, at most 4096 bytes, no NUL and no shell metacharacters.
pub fn validate_volume_path(path: &str, side: &str) -> (r: ContainerResult<()>)
    ensures
        outcome_is(r, volume_path_error(path@, side@)),
{
    let v = chars_of(path);
    if v.len() == 0 {
        let mut m = lit(side);
        m.append(" volume path cannot be empty");
        return invalid(m);
    }
    if utf8_longer_than(&v, 4096) {
        let mut m = lit(side);
        m.append(" volume path exceeds maximum length of 4096 characters");
        return invalid(m);
    }
    if contains_char(&v, '\0') {
        let mut m = lit(side);
        m.append(" volume path cannot contain null bytes");
        return invalid(m);
    }
    let bad = dangerous_list();
    let mut k: usize = 0;
    while k < bad.len()
        invariant
            k <= bad@.len(),
            bad@ == dangerous_chars(),
            first_dangerous_from(path@, 0) == first_dangerous_from(path@, k as int),
            v@ == path@,
            path@.len() > 0,
            utf8_len(path@) <= 4096,
            !path@.contains('\0'),
        decreases bad.len() - k,
    {
        let c = bad[k];
        if contains_char(&v, c) {
            let mut m = lit(side);
            m.append(" volume path contains dangerous character '");
            let cs = vec![c];
            assert(cs@ =~= seq![c]);
            assert(first_dangerous_from(path@, k as int) == Some(c));
            let cstr = string_of(&cs);
            m.append(cstr.as_str());
            m.append("'");
            return invalid(m);
        }
        k = k + 1;
    }
    Ok(())
}

/// The message `validate_container_path` reports for `path`, if any.
pub open spec fn container_path_error(path: Seq<char>) -> Option<Seq<char>> {
    if path.len() == 0 {
        Some("container path cannot be empty"@)
    } else if path[0] != '/' {
        Some("container path must be absolute (start with '/')"@)
    } else if path.contains('\0') {
        Some("container path cannot contain null bytes"@)
    } else {
        None
    }
}

/// Validate a path inside the container: non-empty, absolute, no NUL.
pub fn validate_container_path(path: &str) -> (r: ContainerResult<()>)
    ensures
        outcome_is(r, container_path_error(path@)),
{
    let v = chars_of(path);
    if v.len() == 0 {
        return invalid(lit("container path cannot be empty"));
    }
    if v[0] != '/' {
        return invalid(lit("container path must be absolute (start with '/')"));
    }
    if contains_char(&v, '\0') {
        return invalid(lit("container path cannot contain null bytes"));
    }
    Ok(())
}

// ---------------------------------------------------------------------------
// Port mappings
// ---------------------------------------------------------------------------

/// Port mapping configuration.
#[derive(Debug, Clone)]
pub struct PortMapping {
    /// Port on the host.
    pub host_port: u16,
    /// Port in the container.
    pub container_port: u16,
    /// Protocol (tcp or udp).
    pub protocol: String,
}

/// The protocol a port mapping uses unless told otherwise: `"tcp"`.
pub fn default_protocol() -> (r: String)
    ensures
        r@ == "tcp"@,
{
    lit("tcp")
}

/// The empty string used for absent creation timestamps.
pub fn default_empty_string() -> (r: String)
    ensures
        r@ == Seq::<char>::empty(),
{
    String::new()
}

impl PortMapping {
    /// A TCP port mapping.
    pub fn new(host_port: u16, container_port: u16) -> (r: Self)
        ensures
            r.host_port == host_port,
            r.container_port == container_port,
            r.protocol@ == "tcp"@,
    {
        PortMapping { host_port, container_port, protocol: default_protocol() }
    }

    /// A UDP port mapping.
    pub fn udp(host_port: u16, container_port: u16) -> (r: Self)
        ensures
            r.host_port == host_port,
            r.container_port == container_port,
            r.protocol@ == "udp"@,
    {
        PortMapping { host_port, container_port, protocol: lit("udp") }
    }
}

// ---------------------------------------------------------------------------
// Key/value lists
// ---------------------------------------------------------------------------

/// The contents of a key/value list as pairs of character sequences.
pub open spec fn pairs_view(v: Seq<(String, String)>) -> Seq<(Seq<char>, Seq<char>)> {
    Seq::new(v.len(), |i: int| (v[i].0@, v[i].1@))
}

/// No key occurs twice.
pub open spec fn keys_distinct(p: Seq<(Seq<char>, Seq<char>)>) -> bool {
    forall|i: int, j: int| 0 <= i < p.len() && 0 <= j < p.len() && i != j ==> #[trigger] p[i].0
        != #[trigger] p[j].0
}

/// `k` is a key of the list.
pub open spec fn has_key(p: Seq<(Seq<char>, Seq<char>)>, k: Seq<char>) -> bool {
    exists|i: int| 0 <= i < p.len() && #[trigger] p[i].0 == k
}

/// The list after setting `k` to `val`: the entry for `k` is replaced in
/// place when present, otherwise the pair is appended.
pub open spec fn upsert(p: Seq<(Seq<char>, Seq<char>)>, k: Seq<char>, val: Seq<char>) -> Seq<
    (Seq<char>, Seq<char>),
> {
    if has_key(p, k) {
        let i = choose|i: int| 0 <= i < p.len() && #[trigger] p[i].0 == k;
        p.update(i, (k, val))
    } else {
        p.push((k, val))
    }
}

/// The list read as a map from key to value.
pub open spec fn pairs_map(p: Seq<(Seq<char>, Seq<char>)>) -> Map<Seq<char>, Seq<char>> {
    Map::new(
        |k: Seq<char>| has_key(p, k),
        |k: Seq<char>| p[choose|i: int| 0 <= i < p.len() && #[trigger] p[i].0 == k].1,
    )
}

/// A copy of a key/value list.
pub fn copy_pairs(v: &Vec<(String, String)>) -> (r: Vec<(String, String)>)
    ensures
        r@ == v@,
{
    let mut r: Vec<(String, String)> = Vec::new();
    let mut i: usize = 0;
    while i < v.len()
        invariant
            i <= v@.len(),
            r@ == v@.subrange(0, i as int),
        decreases v.len() - i,
    {
        r.push((v[i].0.clone(), v[i].1.clone()));
        i = i + 1;
        assert(r@ =~= v@.subrange(0, i as int));
    }
    assert(r@ =~= v@);
    r
}

/// Sets `key` to `value` in a key/value list, replacing an existing entry.
pub fn set_pair(list: &mut Vec<(String, String)>, key: String, value: String)
    requires
        keys_distinct(pairs_view(old(list)@)),
    ensures
        pairs_view(final(list)@) == upsert(pairs_view(old(list)@), key@, value@),
        keys_distinct(pairs_view(final(list)@)),
{
    let ghost p = pairs_view(list@);
    let mut i: usize = 0;
    while i < list.len()
        invariant
            i <= list@.len(),
            p == pairs_view(list@),
            p == pairs_view(old(list)@),
            keys_distinct(p),
            forall|j: int| 0 <= j < i ==> #[trigger] p[j].0 != key@,
        decreases list.len() - i,
    {
        if list[i].0 == key {
            proof {
                assert(p[i as int].0 == key@);
                assert(has_key(p, key@));
                let c = choose|c: int| 0 <= c < p.len() && #[trigger] p[c].0 == key@;
                assert(c == i);
            }
            list.set(i, (key, value));
            assert(pairs_view(list@) =~= p.update(i as int, (key@, value@)));
            return;
        }
        i = i + 1;
    }
    assert(!has_key(p, key@));
    list.push((key, value));
    assert(pairs_view(list@) =~= p.push((key@, value@)));
}

// ---------------------------------------------------------------------------
// Container configuration
// ---------------------------------------------------------------------------

/// Configuration for creating a new container.
#[derive(Debug, Clone)]
pub struct ContainerConfig {
    /// Container name (optional).
    pub name: Option<String>,
    /// Container hostname.
    pub hostname: Option<String>,
    /// Docker/OCI image to use.
    pub image: String,
    /// Command to run.
    pub command: Vec<String>,
    /// Environment variables, in the order they were first set.
    pub env: Vec<(String, String)>,
    /// Port mappings (ignored when network_mode is "host").
    pub ports: Vec<PortMapping>,
    /// Volume mounts (host_path -> container_path).
    pub volumes: Vec<(String, String)>,
    /// Working directory inside the container.
    pub workdir: Option<String>,
    /// Labels for the container, in the order they were first set.
    pub labels: Vec<(String, String)>,
    /// Network mode (e.g., "host", "bridge", "none").
    pub network_mode: Option<String>,
}

impl ContainerConfig {
    /// Environment and labels each hold every key at most once.
    pub open spec fn well_formed(&self) -> bool {
        keys_distinct(pairs_view(self.env@)) && keys_distinct(pairs_view(self.labels@))
    }

    /// The environment as a map from variable name to value.
    pub open spec fn env_map(&self) -> Map<Seq<char>, Seq<char>> {
        pairs_map(pairs_view(self.env@))
    }

    /// A configuration for `image` with every other setting empty.
    pub fn new(image: &str) -> (r: Self)
        ensures
            r.image@ == image@,
            r.name is None,
            r.hostname is None,
            r.command@.len() == 0,
            r.env@.len() == 0,
            r.ports@.len() == 0,
            r.volumes@.len() == 0,
            r.workdir is None,
            r.labels@.len() == 0,
            r.network_mode is None,
            r.well_formed(),
    {
        ContainerConfig {
            name: None,
            hostname: None,
            image: lit(image),
            command: Vec::new(),
            env: Vec::new(),
            ports: Vec::new(),
            volumes: Vec::new(),
            workdir: None,
            labels: Vec::new(),
            network_mode: None,
        }
    }

    /// Set the container name.
    pub fn name(self, name: &str) -> (r: Self)
        ensures
            r == (ContainerConfig { name: r.name, ..self }),
            r.name matches Some(n) && n@ == name@,
    {
        ContainerConfig { name: Some(lit(name)), ..self }
    }

    /// Set the container hostname.
    pub fn hostname(self, hostname: &str) -> (r: Self)
        ensures
            r == (ContainerConfig { hostname: r.hostname, ..self }),
            r.hostname matches Some(n) && n@ == hostname@,
    {
        ContainerConfig { hostname: Some(lit(hostname)), ..self }
    }

    /// Set the command to run.
    pub fn command(self, cmd: Vec<String>) -> (r: Self)
        ensures
            r == (ContainerConfig { command: cmd, ..self }),
    {
        ContainerConfig { command: cmd, ..self }
    }

    /// Set an environment variable, replacing any earlier value of `key`.
    pub fn env(self, key: &str, value: &str) -> (r: Self)
        requires
            self.well_formed(),
        ensures
            r.well_formed(),
            pairs_view(r.env@) == upsert(pairs_view(self.env@), key@, value@),
            r.env_map() == self.env_map().insert(key@, value@),
            r == (ContainerConfig { env: r.env, ..self }),
    {
        proof {
            law_set_then_read(pairs_view(self.env@), key@, value@);
        }
        let mut c = self;
        set_pair(&mut c.env, lit(key), lit(value));
        c
    }

    /// Set several environment variables, in the order given.
    pub fn envs(self, envs: Vec<(String, String)>) -> (r: Self)
        requires
            self.well_formed(),
        ensures
            r.well_formed(),
            pairs_view(r.env@) == upsert_all(pairs_view(self.env@), pairs_view(envs@)),
            r == (ContainerConfig { env: r.env, ..self }),
    {
        let mut c = self;
        let mut i: usize = 0;
        let ghost start = pairs_view(c.env@);
        let ghost add = pairs_view(envs@);
        while i < envs.len()
            invariant
                i <= envs@.len(),
                add == pairs_view(envs@),
                keys_distinct(pairs_view(c.env@)),
                keys_distinct(pairs_view(c.labels@)),
                pairs_view(c.env@) == upsert_all(start, add.subrange(0, i as int)),
                c == (ContainerConfig { env: c.env, ..self }),
            decreases envs.len() - i,
        {
            let k = envs[i].0.clone();
            let v = envs[i].1.clone();
            set_pair(&mut c.env, k, v);
            proof {
                let s = add.subrange(0, i + 1);
                assert(s.drop_last() =~= add.subrange(0, i as int));
            }
            i = i + 1;
        }
        assert(add.subrange(0, i as int) =~= add);
        c
    }

    /// Add a port mapping from `host_port` to `container_port` over TCP.
    pub fn port(self, host_port: u16, container_port: u16) -> (r: Self)
        ensures
            r.ports@.len() == self.ports@.len() + 1,
            r.ports@.drop_last() == self.ports@,
            r.ports@.last().host_port == host_port,
            r.ports@.last().container_port == container_port,
            r.ports@.last().protocol@ == "tcp"@,
            r == (ContainerConfig { ports: r.ports, ..self }),
    {
        let mut c = self;
        c.ports.push(PortMapping::new(host_port, container_port));
        assert(c.ports@.drop_last() =~= self.ports@);
        c
    }

    /// Add a volume mount from `host_path` to `container_path`.
    pub fn volume(self, host_path: &str, container_path: &str) -> (r: Self)
        ensures
            r.volumes@.len() == self.volumes@.len() + 1,
            r.volumes@.drop_last() == self.volumes@,
            r.volumes@.last().0@ == host_path@,
            r.volumes@.last().1@ == container_path@,
            r == (ContainerConfig { volumes: r.volumes, ..self }),
    {
        let mut c = self;
        c.volumes.push((lit(host_path), lit(container_path)));
        assert(c.volumes@.drop_last() =~= self.volumes@);
        c
    }

    /// Set the working directory.
    pub fn workdir(self, workdir: &str) -> (r: Self)
        ensures
            r == (ContainerConfig { workdir: r.workdir, ..self }),
            r.workdir matches Some(w) && w@ == workdir@,
    {
        ContainerConfig { workdir: Some(lit(workdir)), ..self }
    }

    /// Set the network mode (e.g., "host", "bridge", "none").
    pub fn network_mode(self, mode: &str) -> (r: Self)
        ensures
            r == (ContainerConfig { network_mode: r.network_mode, ..self }),
            r.network_mode matches Some(m) && m@ == mode@,
    {
        ContainerConfig { network_mode: Some(lit(mode)), ..self }
    }

    /// Set a label, replacing any earlier value of `key`.
    pub fn label(self, key: &str, value: &str) -> (r: Self)
        requires
            self.well_formed(),
        ensures
            r.well_formed(),
            pairs_view(r.labels@) == upsert(pairs_view(self.labels@), key@, value@),
            r == (ContainerConfig { labels: r.labels, ..self }),
    {
        let mut c = self;
        set_pair(&mut c.labels, lit(key), lit(value));
        c
    }

    /// Validate every field that reaches the container runtime: the image,
    /// the name and hostname when set, every environment key, both sides of
    /// every volume and the working directory when set. The first problem
    /// found, in that order, is reported.
    pub fn validate(&self) -> (r: ContainerResult<()>)
        ensures
            outcome_is(r, config_error(*self)),
    {
        let r = validate_image_name(self.image.as_str());
        if r.is_err() {
            return r;
        }
        match &self.name {
            Some(n) => {
                let r = validate_container_name(n.as_str());
                if r.is_err() {
                    return r;
                }
            },
            None => {},
        }
        match &self.hostname {
            Some(h) => {
                let r = validate_hostname(h.as_str());
                if r.is_err() {
                    return r;
                }
            },
            None => {},
        }
        let mut i: usize = 0;
        let ghost env = pairs_view(self.env@);
        let ghost vols = pairs_view(self.volumes@);
        let ghost wd = workdir_error(*self);
        while i < self.env.len()
            invariant
                i <= self.env@.len(),
                env == pairs_view(self.env@),
                vols == pairs_view(self.volumes@),
                wd == workdir_error(*self),
                config_error(*self) == first_error(
                    env_keys_error(env, i as int),
                    first_error(volumes_error(vols, 0), wd),
                ),
            decreases self.env.len() - i,
        {
            let r = validate_env_var_key(self.env[i].0.as_str());
            if r.is_err() {
                return r;
            }
            i = i + 1;
        }
        let mut j: usize = 0;
        while j < self.volumes.len()
            invariant
                j <= self.volumes@.len(),
                vols == pairs_view(self.volumes@),
                wd == workdir_error(*self),
                config_error(*self) == first_error(volumes_error(vols, j as int), wd),
            decreases self.volumes.len() - j,
        {
            let r = validate_volume_path(self.volumes[j].0.as_str(), "host");
            if r.is_err() {
                return r;
            }
            let r = validate_volume_path(self.volumes[j].1.as_str(), "container");
            if r.is_err() {
                return r;
            }
            j = j + 1;
        }
        match &self.workdir {
            Some(w) => validate_container_path(w.as_str()),
            None => Ok(()),
        }
    }
}

/// The list after setting each pair of `add` in turn.
pub open spec fn upsert_all(
    p: Seq<(Seq<char>, Seq<char>)>,
    add: Seq<(Seq<char>, Seq<char>)>,
) -> Seq<(Seq<char>, Seq<char>)>
    decreases add.len(),
{
    if add.len() == 0 {
        p
    } else {
        upsert(upsert_all(p, add.drop_last()), add.last().0, add.last().1)
    }
}

/// `a` unless it is `None`, then `b`.
pub open spec fn first_error(a: Option<Seq<char>>, b: Option<Seq<char>>) -> Option<Seq<char>> {
    if a is Some {
        a
    } else {
        b
    }
}

/// The first environment key error at index `i` or later.
pub open spec fn env_keys_error(env: Seq<(Seq<char>, Seq<char>)>, i: int) -> Option<Seq<char>>
    decreases env.len() - i,
{
    if i < 0 || i >= env.len() {
        None
    } else {
        first_error(env_var_key_error(env[i].0), env_keys_error(env, i + 1))
    }
}

/// The first volume error at index `i` or later, host side before container
/// side.
pub open spec fn volumes_error(vols: Seq<(Seq<char>, Seq<char>)>, i: int) -> Option<Seq<char>>
    decreases vols.len() - i,
{
    if i < 0 || i >= vols.len() {
        None
    } else {
        first_error(
            volume_path_error(vols[i].0, "host"@),
            first_error(volume_path_error(vols[i].1, "container"@), volumes_error(vols, i + 1)),
        )
    }
}

/// The message reported for the working directory, if any.
pub open spec fn workdir_error(c: ContainerConfig) -> Option<Seq<char>> {
    match c.workdir {
        Some(w) => container_path_error(w@),
        None => None,
    }
}

/// The message `ContainerConfig::validate` reports, if any.
pub open spec fn config_error(c: ContainerConfig) -> Option<Seq<char>> {
    first_error(
        image_name_error(c.image@),
        first_error(
            match c.name {
                Some(n) => container_name_error(n@),
                None => None,
            },
            first_error(
                match c.hostname {
                    Some(h) => hostname_error(h@),
                    None => None,
                },
                first_error(
                    env_keys_error(pairs_view(c.env@), 0),
                    first_error(
                        volumes_error(pairs_view(c.volumes@), 0),
                        workdir_error(c),
                    ),
                ),
            ),
        ),
    )
}

// ---------------------------------------------------------------------------
// Container state and runtime records
// ---------------------------------------------------------------------------

/// Container state.
#[derive(Debug, Clone, Copy, PartialEq, Eq, Structural)]
pub enum ContainerState {
    /// Container is being created.
    Created,
    /// Container is running.
    Running,
    /// Container is paused.
    Paused,
    /// Container is restarting.
    Restarting,
    /// Container is being removed.
    Removing,
    /// Container has exited.
    Exited,
    /// Container is dead.
    Dead,
    /// Unknown state.
    Unknown,
}

/// The lowercase name of a container state.
pub open spec fn container_state_name(s: ContainerState) -> Seq<char> {
    match s {
        ContainerState::Created => "created"@,
        ContainerState::Running => "running"@,
        ContainerState::Paused => "paused"@,
        ContainerState::Restarting => "restarting"@,
        ContainerState::Removing => "removing"@,
        ContainerState::Exited => "exited"@,
        ContainerState::Dead => "dead"@,
        ContainerState::Unknown => "unknown"@,
    }
}

impl ContainerState {
    /// The lowercase name, as shown to users.
    pub fn display_string(&self) -> (r: String)
        ensures
            r@ == container_state_name(*self),
    {
        match self {
            ContainerState::Created => lit("created"),
            ContainerState::Running => lit("running"),
            ContainerState::Paused => lit("paused"),
            ContainerState::Restarting => lit("restarting"),
            ContainerState::Removing => lit("removing"),
            ContainerState::Exited => lit("exited"),
            ContainerState::Dead => lit("dead"),
            ContainerState::Unknown => lit("unknown"),
        }
    }
}

impl Default for ContainerState {
    fn default() -> (r: Self)
        ensures
            r == ContainerState::Unknown,
    {
        ContainerState::Unknown
    }
}

/// Container information from `podman ps` / `inspect`.
#[derive(Debug, Clone)]
pub struct Container {
    /// Container ID.
    pub id: String,
    /// Container names.
    pub names: Vec<String>,
    /// Image used.
    pub image: String,
    /// Container state.
    pub state: ContainerState,
    /// Status string (e.g., "Up 5 minutes").
    pub status: String,
    /// Creation timestamp.
    pub created: String,
    /// Port bindings.
    pub ports: Vec<ContainerPort>,
}

/// Port binding information.
#[derive(Debug, Clone)]
pub struct ContainerPort {
    /// Host IP.
    pub host_ip: String,
    /// Host port.
    pub host_port: u16,
    /// Container port.
    pub container_port: u16,
    /// Protocol.
    pub protocol: String,
}

/// Container resource statistics.
#[derive(Debug, Clone)]
pub struct ContainerStats {
    /// Container ID.
    pub container_id: String,
    /// Container name.
    pub name: String,
    /// CPU percentage.
    pub cpu_percent: String,
    /// Memory usage.
    pub mem_usage: String,
    /// Memory percentage.
    pub mem_percent: String,
    /// Network I/O.
    pub net_io: String,
    /// Block I/O.
    pub block_io: String,
    /// Number of PIDs.
    pub pids: String,
}

/// Setting an environment variable (or label) makes the list map that key
/// to the new value and leaves every other key as it was; the keys stay
/// distinct.
pub proof fn law_set_then_read(p: Seq<(Seq<char>, Seq<char>)>, k: Seq<char>, v: Seq<char>)
    requires
        keys_distinct(p),
    ensures
        keys_distinct(upsert(p, k, v)),
        pairs_map(upsert(p, k, v)) == pairs_map(p).insert(k, v),
{
    let q = upsert(p, k, v);
    let m = pairs_map(p).insert(k, v);
    if has_key(p, k) {
        let i = choose|i: int| 0 <= i < p.len() && #[trigger] p[i].0 == k;
        assert(q == p.update(i, (k, v)));
        assert forall|a: int, b: int| 0 <= a < q.len() && 0 <= b < q.len() && a != b implies #[trigger] q[a].0
            != #[trigger] q[b].0 by {
            assert(q[a].0 == p[a].0 && q[b].0 == p[b].0);
        }
        assert forall|x: Seq<char>| #[trigger] pairs_map(q).dom().contains(x) <==> m.dom().contains(x) by {
            if has_key(q, x) {
                let j = choose|j: int| 0 <= j < q.len() && #[trigger] q[j].0 == x;
                assert(p[j].0 == x);
            }
            if has_key(p, x) {
                let j = choose|j: int| 0 <= j < p.len() && #[trigger] p[j].0 == x;
                assert(q[j].0 == x);
            }
            if x == k {
                assert(q[i].0 == x);
            }
        }
        assert forall|x: Seq<char>| #[trigger] pairs_map(q).dom().contains(x) implies pairs_map(q)[x] == m[x] by {
            let j = choose|j: int| 0 <= j < q.len() && #[trigger] q[j].0 == x;
            if x == k {
                assert(j == i);
            } else {
                assert(p[j].0 == x);
                let j2 = choose|j2: int| 0 <= j2 < p.len() && #[trigger] p[j2].0 == x;
                assert(j2 == j);
            }
        }
        assert(pairs_map(q) =~= m);
    } else {
        assert(q == p.push((k, v)));
        assert forall|a: int, b: int| 0 <= a < q.len() && 0 <= b < q.len() && a != b implies #[trigger] q[a].0
            != #[trigger] q[b].0 by {
            if a < p.len() && b < p.len() {
                assert(q[a] == p[a] && q[b] == p[b]);
            } else if a < p.len() {
                assert(q[a] == p[a]);
            } else {
                assert(q[b] == p[b]);
            }
        }
        assert forall|x: Seq<char>| #[trigger] pairs_map(q).dom().contains(x) <==> m.dom().contains(x) by {
            if has_key(q, x) {
                let j = choose|j: int| 0 <= j < q.len() && #[trigger] q[j].0 == x;
                if j < p.len() {
                    assert(p[j].0 == x);
                }
            }
            if has_key(p, x) {
                let j = choose|j: int| 0 <= j < p.len() && #[trigger] p[j].0 == x;
                assert(q[j].0 == x);
            }
            if x == k {
                assert(q[p.len() as int].0 == x);
            }
        }
        assert forall|x: Seq<char>| #[trigger] pairs_map(q).dom().contains(x) implies pairs_map(q)[x] == m[x] by {
            let j = choose|j: int| 0 <= j < q.len() && #[trigger] q[j].0 == x;
            if j < p.len() {
                assert(q[j] == p[j]);
                assert(p[j].0 == x);
                let j2 = choose|j2: int| 0 <= j2 < p.len() && #[trigger] p[j2].0 == x;
                assert(j2 == j);
            }
        }
        assert(pairs_map(q) =~= m);
    }
}

/// A configuration that validates has a valid image, a valid name and
/// hostname when set, valid environment keys, valid volume paths on both
/// sides, and a valid working directory when set.
pub proof fn law_valid_config_parts(c: ContainerConfig)
    requires
        config_error(c) is None,
    ensures
        image_name_error(c.image@) is None,
        c.name matches Some(n) ==> container_name_error(n@) is None,
        c.hostname matches Some(h) ==> hostname_error(h@) is None,
        forall|i: int| 0 <= i < c.env@.len() ==> env_var_key_error(#[trigger] c.env@[i].0@) is None,
        forall|i: int|
            0 <= i < c.volumes@.len() ==> volume_path_error(#[trigger] c.volumes@[i].0@, "host"@) is None
                && volume_path_error(c.volumes@[i].1@, "container"@) is None,
        c.workdir matches Some(w) ==> container_path_error(w@) is None,
{
    assert forall|i: int| 0 <= i < c.env@.len() implies env_var_key_error(#[trigger] c.env@[i].0@) is None by {
        lemma_env_keys_error_none(pairs_view(c.env@), 0, i);
    }
    assert forall|i: int|
        0 <= i < c.volumes@.len() implies volume_path_error(#[trigger] c.volumes@[i].0@, "host"@) is None
            && volume_path_error(c.volumes@[i].1@, "container"@) is None by {
        lemma_volumes_error_none(pairs_view(c.volumes@), 0, i);
    }
}

proof fn lemma_env_keys_error_none(env: Seq<(Seq<char>, Seq<char>)>, start: int, i: int)
    requires
        0 <= start <= i < env.len(),
        env_keys_error(env, start) is None,
    ensures
        env_var_key_error(env[i].0) is None,
    decreases i - start,
{
    if start < i {
        lemma_env_keys_error_none(env, start + 1, i);
    }
}

proof fn lemma_volumes_error_none(vols: Seq<(Seq<char>, Seq<char>)>, start: int, i: int)
    requires
        0 <= start <= i < vols.len(),
        volumes_error(vols, start) is None,
    ensures
        volume_path_error(vols[i].0, "host"@) is None,
        volume_path_error(vols[i].1, "container"@) is None,
    decreases i - start,
{
    if start < i {
        lemma_volumes_error_none(vols, start + 1, i);
    }
}

} // verus!
