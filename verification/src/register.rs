//! Turning a registration request into the payload the registration service takes.

use rand::distributions::{Alphanumeric, DistString};
use rand::{Rng, SeedableRng};
use vstd::prelude::*;
use vstd::utf8::encode_utf8;
use crate::text::{
    decimal, digit_char, is_alnum, join_lines, lower, lower_char, lower_str, push_char,
    push_decimal, trim, trim_str,
};

verus! {

/// The seedable standard generator; once seeded it never reseeds.
#[verifier::external_type_specification]
#[verifier::external_body]
pub struct ExStdRng(rand::rngs::StdRng);

/// Why the operating system could not give entropy.
#[verifier::external_type_specification]
#[verifier::external_body]
pub struct ExRandError(rand::Error);

/// `StdRng::from_rng(OsRng)`: a generator seeded from the operating system,
/// or the error the operating system gave. Which happens is left open.
#[verifier::external_body]
fn seeded_rng() -> (r: Result<rand::rngs::StdRng, rand::Error>) {
    rand::rngs::StdRng::from_rng(rand::rngs::OsRng)
}

/// `Alphanumeric.sample_string(rng, len)`: `len` characters, each drawn from
/// `A-Z`, `a-z` and `0-9`. Which ones is left open.
#[verifier::external_body]
fn sample_alphanumeric(rng: &mut rand::rngs::StdRng, len: usize) -> (s: String)
    ensures
        s@.len() == len,
        forall|i: int| 0 <= i < s@.len() ==> is_alnum(#[trigger] s@[i]),
{
    Alphanumeric.sample_string(rng, len)
}

/// `rng.gen_range(0..bound)`: some number below `bound`. Which one is left open.
#[verifier::external_body]
fn gen_below(rng: &mut rand::rngs::StdRng, bound: u16) -> (r: u16)
    requires
        bound > 0,
    ensures
        r < bound,
{
    rng.gen_range(0..bound)
}

/// A registration request as the hub's page sends it.
#[derive(Debug, Clone, Default)]
pub struct RegisterInput {
    pub accounts: Option<String>,
    pub proxy: Option<String>,
    pub workers: Option<i64>,
    pub login_mode: Option<bool>,
    pub skip_finished: Option<bool>,
    pub duckmail: Option<DuckMailInput>,
    pub duckmail_generate: Option<DuckMailGenerateInput>,
}

/// How to reach the DuckMail service.
#[derive(Debug, Clone, Default)]
pub struct DuckMailInput {
    pub base_url: Option<String>,
    pub api_key: Option<String>,
    pub mailbox_password: Option<String>,
    pub poll_seconds: Option<i64>,
}

/// How to make up DuckMail accounts when none are given.
#[derive(Debug, Clone, Default)]
pub struct DuckMailGenerateInput {
    pub domain: Option<String>,
    pub prefix: Option<String>,
    pub count: Option<i64>,
    pub openai_password: Option<String>,
}

/// The DuckMail part of a registration payload.
#[derive(Debug, Clone)]
pub struct DuckMailSettings {
    pub base_url: String,
    /// Left out when no key was given.
    pub api_key: Option<String>,
    pub mailbox_password: String,
    pub poll_seconds: i64,
}

/// What is sent to the registration service to start a run.
#[derive(Debug, Clone)]
pub struct RegisterPayload {
    /// One account per line.
    pub accounts: String,
    pub proxy: String,
    pub workers: i64,
    pub login_mode: bool,
    pub skip_finished: bool,
    /// Present when the accounts were made up on DuckMail.
    pub duckmail: Option<DuckMailSettings>,
}

pub open spec fn text_or(o: Option<String>, default: Seq<char>) -> Seq<char> {
    match o {
        Some(s) => s@,
        None => default,
    }
}

pub open spec fn at_least_one(v: i64) -> i64 {
    if v < 1 { 1 } else { v }
}

pub open spec fn missing_duckmail_error() -> Seq<char> {
    "未提供账号列表，需填写 DuckMail 配置"@
}

pub open spec fn short_password_error() -> Seq<char> {
    "DuckMail 邮箱密码至少 6 位"@
}

pub open spec fn empty_domain_error() -> Seq<char> {
    "DuckMail 域名不能为空"@
}

pub open spec fn empty_openai_password_error() -> Seq<char> {
    "OpenAI 密码不能为空"@
}

/// The given account list, trimmed.
pub open spec fn given_accounts(input: RegisterInput) -> Seq<char> {
    trim(text_or(input.accounts, ""@))
}

/// The generation settings, all unset when none were given.
pub open spec fn generate_settings(input: RegisterInput) -> DuckMailGenerateInput {
    match input.duckmail_generate {
        Some(g) => g,
        None => DuckMailGenerateInput { domain: None, prefix: None, count: None, openai_password: None },
    }
}

pub open spec fn mailbox_password(d: DuckMailInput) -> Seq<char> {
    trim(text_or(d.mailbox_password, ""@))
}

pub open spec fn generate_domain(g: DuckMailGenerateInput) -> Seq<char> {
    trim(text_or(g.domain, "duckmail.sbs"@))
}

pub open spec fn generate_prefix(g: DuckMailGenerateInput) -> Seq<char> {
    trim(text_or(g.prefix, "duck"@))
}

pub open spec fn generate_password(g: DuckMailGenerateInput) -> Seq<char> {
    trim(text_or(g.openai_password, "Qwer1234!"@))
}

/// How many accounts to make up: the count given when it is positive, else five.
pub open spec fn generate_count(g: DuckMailGenerateInput) -> i64 {
    match g.count {
        Some(v) if v > 0 => v,
        _ => 5,
    }
}

/// The error a request is refused with, checked in this order; `None` when it is accepted.
pub open spec fn register_error(input: RegisterInput) -> Option<Seq<char>> {
    if given_accounts(input).len() > 0 {
        None
    } else {
        match input.duckmail {
            None => Some(missing_duckmail_error()),
            Some(d) => {
                let g = generate_settings(input);
                if encode_utf8(mailbox_password(d)).len() < 6 {
                    Some(short_password_error())
                } else if generate_domain(g).len() == 0 {
                    Some(empty_domain_error())
                } else if generate_password(g).len() == 0 {
                    Some(empty_openai_password_error())
                } else {
                    None
                }
            },
        }
    }
}

/// One made-up account: `<prefix><part lowered><suffix>@<domain>----<password>`.
pub open spec fn account_line(
    prefix: Seq<char>,
    part: Seq<char>,
    suffix: u16,
    domain: Seq<char>,
    password: Seq<char>,
) -> Seq<char> {
    prefix + lower(part) + decimal(suffix as nat) + "@"@ + domain + "----"@ + password
}

pub open spec fn string_views(v: Seq<String>) -> Seq<Seq<char>> {
    v.map_values(|s: String| s@)
}

/// The made-up accounts for the given random parts and suffixes, one per line.
pub open spec fn accounts_text(
    prefix: Seq<char>,
    parts: Seq<Seq<char>>,
    suffixes: Seq<u16>,
    domain: Seq<char>,
    password: Seq<char>,
) -> Seq<char> {
    join_lines(
        Seq::new(
            parts.len(),
            |i: int| account_line(prefix, parts[i], suffixes[i], domain, password),
        ),
    )
}

/// `count` random parts of six ASCII letters or digits, and as many suffixes below 1000.
pub open spec fn valid_draws(parts: Seq<Seq<char>>, suffixes: Seq<u16>, count: nat) -> bool {
    &&& parts.len() == count
    &&& suffixes.len() == count
    &&& forall|i: int| 0 <= i < count ==> (#[trigger] parts[i]).len() == 6
    &&& forall|i: int, j: int| 0 <= i < count && 0 <= j < 6 ==> is_alnum(#[trigger] parts[i][j])
    &&& forall|i: int| 0 <= i < count ==> #[trigger] suffixes[i] < 1000
}

/// `text` lists `count` made-up accounts on the given prefix, domain and password.
pub open spec fn generated_accounts(
    text: Seq<char>,
    count: nat,
    prefix: Seq<char>,
    domain: Seq<char>,
    password: Seq<char>,
) -> bool {
    exists|parts: Seq<Seq<char>>, suffixes: Seq<u16>|
        #![trigger accounts_text(prefix, parts, suffixes, domain, password)]
        valid_draws(parts, suffixes, count) && text == accounts_text(
            prefix,
            parts,
            suffixes,
            domain,
            password,
        )
}

/// The settings of an accepted request that do not depend on chance.
pub open spec fn payload_fits(input: RegisterInput, p: RegisterPayload) -> bool {
    &&& p.proxy@ == text_or(input.proxy, ""@)
    &&& p.workers == at_least_one(
        match input.workers {
            Some(w) => w,
            None => 1,
        },
    )
    &&& p.login_mode == (input.login_mode == Some(true))
    &&& p.skip_finished == (input.skip_finished == Some(true))
    &&& if given_accounts(input).len() > 0 {
        &&& p.accounts@ == given_accounts(input)
        &&& p.duckmail is None
    } else {
        let d = input.duckmail->0;
        let g = generate_settings(input);
        &&& generated_accounts(
            p.accounts@,
            (generate_count(g) as usize) as nat,
            generate_prefix(g),
            generate_domain(g),
            generate_password(g),
        )
        &&& p.duckmail matches Some(s) && {
            &&& s.base_url@ == trim(text_or(d.base_url, "https://api.duckmail.sbs"@))
            &&& match s.api_key {
                Some(k) => k@.len() > 0 && k@ == trim(text_or(d.api_key, ""@)),
                None => trim(text_or(d.api_key, ""@)).len() == 0,
            }
            &&& s.mailbox_password@ == mailbox_password(d)
            &&& s.poll_seconds == at_least_one(
                match d.poll_seconds {
                    Some(v) => v,
                    None => 3,
                },
            )
        }
    }
}

/// `o`, or `default` when unset, without surrounding whitespace.
fn trimmed_or(o: &Option<String>, default: &str) -> (r: String)
    ensures
        r@ == trim(text_or(*o, default@)),
{
    match o {
        Some(s) => trim_str(s.as_str()),
        None => trim_str(default),
    }
}

fn at_least_one_of(v: i64) -> (r: i64)
    ensures
        r == at_least_one(v),
{
    if v < 1 { 1 } else { v }
}

proof fn lemma_join_push(lines: Seq<Seq<char>>, n: int)
    requires
        1 <= n <= lines.len(),
    ensures
        join_lines(lines.take(n)) == if n == 1 {
            lines[0]
        } else {
            join_lines(lines.take(n - 1)) + seq!['\n'] + lines[n - 1]
        },
{
    assert(lines.take(n).drop_last() =~= lines.take(n - 1));
}

/// The made-up accounts for the given random parts and suffixes, one per line:
/// `<prefix><part lowered><suffix>@<domain>----<password>`.
pub fn duckmail_accounts_text(
    prefix: &str,
    parts: &Vec<String>,
    suffixes: &Vec<u16>,
    domain: &str,
    password: &str,
) -> (text: String)
    requires
        parts.len() == suffixes.len(),
    ensures
        text@ == accounts_text(prefix@, string_views(parts@), suffixes@, domain@, password@),
{
    let ghost lines = Seq::new(
        parts@.len(),
        |i: int| account_line(prefix@, parts@[i]@, suffixes@[i], domain@, password@),
    );
    let mut text = String::new();
    let mut i: usize = 0;
    while i < parts.len()
        invariant
            i <= parts.len() == suffixes.len(),
            lines.len() == parts.len(),
            forall|j: int| 0 <= j < lines.len() ==> #[trigger] lines[j] == account_line(
                prefix@,
                parts@[j]@,
                suffixes@[j],
                domain@,
                password@,
            ),
            text@ == join_lines(lines.take(i as int)),
        decreases parts.len() - i,
    {
        proof {
            lemma_join_push(lines, i + 1);
        }
        let ghost before = text@;
        if i > 0 {
            push_char(&mut text, '\n');
        }
        text.append(prefix);
        let part = lower_str(parts[i].as_str());
        text.append(part.as_str());
        push_decimal(&mut text, suffixes[i]);
        text.append("@");
        text.append(domain);
        text.append("----");
        text.append(password);
        assert(text@ =~= (if i == 0 { seq![] } else { before + seq!['\n'] }) + lines[i as int]);
        i += 1;
    }
    assert(lines.take(parts.len() as int) =~= lines);
    assert(string_views(parts@).len() == parts@.len());
    assert(Seq::new(
        string_views(parts@).len(),
        |j: int| account_line(prefix@, string_views(parts@)[j], suffixes@[j], domain@, password@),
    ) =~= lines);
    text
}

/// The message given when no random generator can be had.
pub open spec fn no_generator_error() -> Seq<char> {
    "random generator unavailable"@
}

/// Makes up `count` DuckMail accounts, one per line, each with six random
/// letters or digits and a random number below 1000 after the prefix.
/// Fails only when the operating system gives no entropy to seed the generator.
pub fn generate_duckmail_accounts(count: usize, domain: &str, prefix: &str, password: &str) -> (r: Result<String, String>)
    ensures
        match r {
            Ok(text) => generated_accounts(text@, count as nat, prefix@, domain@, password@),
            Err(e) => e@ == no_generator_error(),
        },
{
    let mut rng = match seeded_rng() {
        Ok(rng) => rng,
        Err(_) => {
            return Err("random generator unavailable".to_owned());
        },
    };
    let mut parts: Vec<String> = Vec::new();
    let mut suffixes: Vec<u16> = Vec::new();
    let mut i: usize = 0;
    while i < count
        invariant
            i <= count,
            valid_draws(string_views(parts@), suffixes@, i as nat),
        decreases count - i,
    {
        let part = sample_alphanumeric(&mut rng, 6);
        let suffix = gen_below(&mut rng, 1000);
        let ghost old_parts = string_views(parts@);
        parts.push(part);
        suffixes.push(suffix);
        assert(string_views(parts@) =~= old_parts.push(part@));
        i += 1;
    }
    let text = duckmail_accounts_text(prefix, &parts, &suffixes, domain, password);
    assert(valid_draws(string_views(parts@), suffixes@, count as nat));
    Ok(text)
}

/// How many line feeds `s` holds.
pub open spec fn line_feeds(s: Seq<char>) -> nat
    decreases s.len(),
{
    if s.len() == 0 {
        0
    } else {
        line_feeds(s.drop_last()) + if s.last() == '\n' {
            1nat
        } else {
            0nat
        }
    }
}

proof fn lemma_line_feeds_concat(a: Seq<char>, b: Seq<char>)
    ensures
        line_feeds(a + b) == line_feeds(a) + line_feeds(b),
    decreases b.len(),
{
    if b.len() == 0 {
        assert(a + b =~= a);
    } else {
        assert((a + b).drop_last() =~= a + b.drop_last());
        lemma_line_feeds_concat(a, b.drop_last());
    }
}

proof fn lemma_no_line_feed(s: Seq<char>)
    requires
        forall|i: int| 0 <= i < s.len() ==> s[i] != '\n',
    ensures
        line_feeds(s) == 0,
    decreases s.len(),
{
    if s.len() > 0 {
        lemma_no_line_feed(s.drop_last());
    }
}

proof fn lemma_decimal_digits(n: nat)
    ensures
        forall|i: int| 0 <= i < decimal(n).len() ==> decimal(n)[i] != '\n',
    decreases n,
{
    let c = digit_char(n % 10);
    assert(c as u32 == 48 + n % 10);
    assert(c != '\n');
    if n >= 10 {
        lemma_decimal_digits(n / 10);
        let d = decimal(n / 10);
        assert forall|i: int| 0 <= i < decimal(n).len() implies decimal(n)[i] != '\n' by {
            if i < d.len() {
                assert(decimal(n)[i] == d[i]);
            }
        }
    } else {
        assert(decimal(n) == seq![c]);
    }
}

proof fn lemma_join_line_feeds(lines: Seq<Seq<char>>)
    requires
        lines.len() >= 1,
        forall|i: int| 0 <= i < lines.len() ==> line_feeds(#[trigger] lines[i]) == 0,
    ensures
        line_feeds(join_lines(lines)) == lines.len() - 1,
    decreases lines.len(),
{
    if lines.len() > 1 {
        assert forall|i: int| 0 <= i < lines.drop_last().len() implies line_feeds(
            #[trigger] lines.drop_last()[i],
        ) == 0 by {
            assert(lines.drop_last()[i] == lines[i]);
        }
        assert(line_feeds(seq!['\n']) == 1) by {
            assert(seq!['\n'].drop_last() =~= Seq::<char>::empty());
            assert(seq!['\n'].last() == '\n');
            assert(line_feeds(Seq::<char>::empty()) == 0);
        }
        assert(line_feeds(lines.last()) == 0) by {
            assert(lines.last() == lines[lines.len() - 1]);
        }
        lemma_join_line_feeds(lines.drop_last());
        lemma_line_feeds_concat(join_lines(lines.drop_last()), seq!['\n']);
        lemma_line_feeds_concat(join_lines(lines.drop_last()) + seq!['\n'], lines.last());
    } else {
        assert(line_feeds(lines[0]) == 0);
    }
}

/// A made-up account list holds one line per account: when the prefix, the
/// domain and the password hold no line feed, `count` accounts make a text
/// with `count - 1` line feeds, each line being one account.
pub proof fn lemma_generated_line_count(
    text: Seq<char>,
    count: nat,
    prefix: Seq<char>,
    domain: Seq<char>,
    password: Seq<char>,
)
    requires
        generated_accounts(text, count, prefix, domain, password),
        count >= 1,
        line_feeds(prefix) == 0,
        line_feeds(domain) == 0,
        line_feeds(password) == 0,
    ensures
        line_feeds(text) == count - 1,
{
    reveal_strlit("@");
    reveal_strlit("----");
    let (parts, suffixes) = choose|parts: Seq<Seq<char>>, suffixes: Seq<u16>|
        valid_draws(parts, suffixes, count) && text == accounts_text(
            prefix,
            parts,
            suffixes,
            domain,
            password,
        );
    let lines = Seq::new(
        parts.len(),
        |i: int| account_line(prefix, parts[i], suffixes[i], domain, password),
    );
    assert forall|i: int| 0 <= i < lines.len() implies line_feeds(#[trigger] lines[i]) == 0 by {
        let part = lower(parts[i]);
        assert forall|j: int| 0 <= j < part.len() implies part[j] != '\n' by {
            assert(is_alnum(parts[i][j]));
            assert(part[j] == lower_char(parts[i][j]));
        }
        lemma_no_line_feed(part);
        lemma_decimal_digits(suffixes[i] as nat);
        lemma_no_line_feed(decimal(suffixes[i] as nat));
        lemma_no_line_feed("@"@);
        lemma_no_line_feed("----"@);
        lemma_line_feeds_concat(prefix, part);
        lemma_line_feeds_concat(prefix + part, decimal(suffixes[i] as nat));
        lemma_line_feeds_concat(prefix + part + decimal(suffixes[i] as nat), "@"@);
        lemma_line_feeds_concat(prefix + part + decimal(suffixes[i] as nat) + "@"@, domain);
        lemma_line_feeds_concat(prefix + part + decimal(suffixes[i] as nat) + "@"@ + domain, "----"@);
        lemma_line_feeds_concat(
            prefix + part + decimal(suffixes[i] as nat) + "@"@ + domain + "----"@,
            password,
        );
    }
    lemma_join_line_feeds(lines);
}

/// Every accepted request runs at least one worker, and DuckMail is polled
/// at least every second.
pub proof fn lemma_payload_bounds(input: RegisterInput, p: RegisterPayload)
    requires
        payload_fits(input, p),
    ensures
        p.workers >= 1,
        p.duckmail matches Some(d) ==> d.poll_seconds >= 1,
{
}

/// A non-blank account list takes precedence: whatever DuckMail settings come
/// with it, the request is accepted and gets the same payloads.
pub proof fn lemma_accounts_take_precedence(a: RegisterInput, b: RegisterInput, p: RegisterPayload)
    requires
        given_accounts(a).len() > 0,
        a.accounts == b.accounts,
        a.proxy == b.proxy,
        a.workers == b.workers,
        a.login_mode == b.login_mode,
        a.skip_finished == b.skip_finished,
    ensures
        register_error(a) is None,
        register_error(b) is None,
        payload_fits(a, p) == payload_fits(b, p),
{
}

/// The payload's flags are the request's own: `login_mode` is the request's
/// `login_mode` and `skip_finished` its `skip_finished`, each false when unset;
/// the proxy is the request's proxy, empty when unset, and the workers are the
/// request's count raised to at least one (one when unset).
pub proof fn lemma_payload_carries_request_settings(input: RegisterInput, p: RegisterPayload)
    requires
        payload_fits(input, p),
    ensures
        p.login_mode == input.login_mode.unwrap_or(false),
        p.skip_finished == input.skip_finished.unwrap_or(false),
        input.proxy matches Some(x) ==> p.proxy@ == x@,
        input.proxy is None ==> p.proxy@.len() == 0,
        input.workers is Some && input.workers->0 >= 1 ==> p.workers == input.workers->0,
        input.workers is Some && input.workers->0 < 1 ==> p.workers == 1,
        input.workers is None ==> p.workers == 1,
{
    reveal_strlit("");
}

/// Changing only one of the two flags of a request leaves the other flag of
/// its payload as it was.
pub proof fn lemma_flags_independent(a: RegisterInput, b: RegisterInput, pa: RegisterPayload, pb: RegisterPayload)
    requires
        payload_fits(a, pa),
        payload_fits(b, pb),
    ensures
        a.login_mode == b.login_mode ==> pa.login_mode == pb.login_mode,
        a.skip_finished == b.skip_finished ==> pa.skip_finished == pb.skip_finished,
{
}

/// Builds the payload for a registration run.
///
/// A non-blank account list is sent as it is. Otherwise DuckMail settings
/// must be given, with a mailbox password of at least six bytes, a domain and
/// an OpenAI password, and the accounts are made up on DuckMail. Making them
/// up fails only when the operating system gives no entropy.
pub fn build_register_payload(input: &RegisterInput) -> (r: Result<RegisterPayload, String>)
    ensures
        match r {
            Ok(p) => register_error(*input) is None && payload_fits(*input, p),
            Err(e) => register_error(*input) == Some(e@) || (register_error(*input) is None
                && given_accounts(*input).len() == 0 && e@ == no_generator_error()),
        },
{
    let accounts_raw = trimmed_or(&input.accounts, "");
    let proxy = match &input.proxy {
        Some(p) => p.clone(),
        None => String::new(),
    };
    proof {
        reveal_strlit("");
        assert(""@ =~= Seq::<char>::empty());
    }
    assert(proxy@ == text_or(input.proxy, ""@));
    let workers = at_least_one_of(
        match input.workers {
            Some(w) => w,
            None => 1,
        },
    );
    let login_mode = match input.login_mode {
        Some(b) => b,
        None => false,
    };
    let skip_finished = match input.skip_finished {
        Some(b) => b,
        None => false,
    };
    if !accounts_raw.as_str().is_empty() {
        return Ok(
            RegisterPayload {
                accounts: accounts_raw,
                proxy,
                workers,
                login_mode,
                skip_finished,
                duckmail: None,
            },
        );
    }
    let duckmail = match &input.duckmail {
        Some(d) => d,
        None => {
            return Err("未提供账号列表，需填写 DuckMail 配置".to_owned());
        },
    };
    let mailbox_password = trimmed_or(&duckmail.mailbox_password, "");
    if mailbox_password.as_str().as_bytes().len() < 6 {
        return Err("DuckMail 邮箱密码至少 6 位".to_owned());
    }
    let base_url = trimmed_or(&duckmail.base_url, "https://api.duckmail.sbs");
    let api_key = trimmed_or(&duckmail.api_key, "");
    let poll_seconds = at_least_one_of(
        match duckmail.poll_seconds {
            Some(v) => v,
            None => 3,
        },
    );
    let unset: Option<String> = None;
    let (domain_in, prefix_in, count_in, password_in) = match &input.duckmail_generate {
        Some(g) => (&g.domain, &g.prefix, g.count, &g.openai_password),
        None => (&unset, &unset, None, &unset),
    };
    let domain = trimmed_or(domain_in, "duckmail.sbs");
    if domain.as_str().is_empty() {
        return Err("DuckMail 域名不能为空".to_owned());
    }
    let prefix = trimmed_or(prefix_in, "duck");
    let count: i64 = match count_in {
        Some(v) if v > 0 => v,
        _ => 5,
    };
    let openai_password = trimmed_or(password_in, "Qwer1234!");
    if openai_password.as_str().is_empty() {
        return Err("OpenAI 密码不能为空".to_owned());
    }
    let accounts = generate_duckmail_accounts(
        #[verifier::truncate]
        (count as usize),
        domain.as_str(),
        prefix.as_str(),
        openai_password.as_str(),
    )?;
    let api_key = if !api_key.as_str().is_empty() {
        Some(api_key)
    } else {
        None
    };
    Ok(
        RegisterPayload {
            accounts,
            proxy,
            workers,
            login_mode,
            skip_finished,
            duckmail: Some(DuckMailSettings { base_url, api_key, mailbox_password, poll_seconds }),
        },
    )
}

} // verus!
