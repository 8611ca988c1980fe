//! The TURN server's configuration file: rendering it from a template, and swapping the
//! shared secret in it.

use vstd::prelude::*;
use vstd::string::*;
use crate::agent::config::AgentConfig;
use crate::text::{chars_of, concat2, dec, push_char, u64_to_string, vec_matches_at};
use crate::turn::models::TurnConfig;

verus! {

/// `s` with every occurrence of `p` replaced by `r`, scanning from the left and not
/// overlapping, as `str::replace` does for a non-empty pattern.
pub open spec fn replace_all(s: Seq<char>, p: Seq<char>, r: Seq<char>) -> Seq<char>
    decreases s.len(),
{
    if p.len() == 0 || s.len() < p.len() {
        s
    } else if s.subrange(0, p.len() as int) == p {
        r + replace_all(s.skip(p.len() as int), p, r)
    } else {
        seq![s[0]] + replace_all(s.skip(1), p, r)
    }
}

/// Replaces every occurrence of a non-empty `p` in `s` by `r`.
pub fn replace_str(s: &str, p: &str, r: &str) -> (out: String)
    requires
        p@.len() > 0,
    ensures
        out@ == replace_all(s@, p@, r@),
{
    let vs = chars_of(s);
    let vp = chars_of(p);
    let mut out = String::new();
    let mut i: usize = 0;
    proof {
        assert(vs@.skip(0) =~= s@);
        assert(out@ + replace_all(s@, p@, r@) =~= replace_all(s@, p@, r@));
    }
    while i < vs.len()
        invariant
            vs@ == s@,
            vp@ == p@,
            vp@.len() > 0,
            i <= vs.len(),
            out@ + replace_all(vs@.skip(i as int), p@, r@) == replace_all(s@, p@, r@),
        decreases vs.len() - i,
    {
        let ghost rest = vs@.skip(i as int);
        if vp.len() <= vs.len() - i && vec_matches_at(&vs, &vp, i) {
            proof {
                assert(rest.subrange(0, p@.len() as int) =~= vs@.subrange(i as int, i + p@.len()));
                assert(rest.skip(p@.len() as int) =~= vs@.skip(i + p@.len()));
            }
            out.append(r);
            i = i + vp.len();
        } else {
            proof {
                if rest.len() >= p@.len() {
                    assert(rest.subrange(0, p@.len() as int) =~= vs@.subrange(i as int, i + p@.len()));
                }
                assert(rest.skip(1) =~= vs@.skip(i + 1));
                if rest.len() < p@.len() {
                    assert(rest =~= seq![rest[0]] + rest.skip(1));
                }
            }
            push_char(&mut out, vs[i]);
            i = i + 1;
        }
    }
    proof {
        assert(vs@.skip(i as int) =~= Seq::<char>::empty());
    }
    out
}

/// The configuration file made from `template` for a node with settings `agent`, under the
/// configuration `turn` of version `version`, generated at the time written `generated_at`.
pub open spec fn rendered_config(
    template: Seq<char>,
    turn: TurnConfig,
    agent: AgentConfig,
    version: u64,
    generated_at: Seq<char>,
) -> Seq<char> {
    let s1 = replace_all(template, "${GENERATED_AT}"@, generated_at);
    let s2 = replace_all(s1, "${CONFIG_VERSION}"@, dec(version as nat));
    let s3 = replace_all(s2, "${TURN_PORT}"@, dec(agent.turn_port as nat));
    let s4 = replace_all(s3, "${TURN_TLS_PORT}"@, dec(agent.turn_tls_port as nat));
    let s5 = replace_all(s4, "${PUBLIC_IP}"@, agent.public_ip@);
    let s6 = replace_all(s5, "${AUTH_SECRET}"@, turn.auth_secret@);
    let s7 = replace_all(s6, "${REALM}"@, turn.realm@);
    let s8 = replace_all(s7, "${RELAY_MIN_PORT}"@, dec(agent.relay_min_port as nat));
    let s9 = replace_all(s8, "${RELAY_MAX_PORT}"@, dec(agent.relay_max_port as nat));
    let s10 = replace_all(s9, "${TOTAL_QUOTA}"@, dec(turn.total_quota as nat));
    let s11 = replace_all(s10, "${USER_QUOTA}"@, dec(turn.user_quota as nat));
    replace_all(s11, "${MAX_BPS}"@, dec(turn.max_bps as nat))
}

/// The configuration file `content` with the shared secret `old_secret` replaced by `secret`:
/// when no secret was applied yet, the template's placeholder is replaced instead.
pub open spec fn secret_updated(content: Seq<char>, old_secret: Seq<char>, secret: Seq<char>) -> Seq<char> {
    if old_secret.len() == 0 {
        replace_all(content, "${AUTH_SECRET}"@, secret)
    } else {
        replace_all(content, "static-auth-secret="@ + old_secret, "static-auth-secret="@ + secret)
    }
}

/// Why the configuration file could not be made.
#[derive(Debug, Clone)]
pub enum CoturnError {
    Io(String),
    TemplateRead(String),
    ConfigWrite(String),
}

impl CoturnError {
    /// The text shown for the error.
    pub fn message(&self) -> (r: String)
        ensures
            r@ == match self {
                CoturnError::Io(d) => "IO 错误: "@ + d@,
                CoturnError::TemplateRead(d) => "模板读取失败: "@ + d@,
                CoturnError::ConfigWrite(d) => "配置写入失败: "@ + d@,
            },
    {
        match self {
            CoturnError::Io(d) => concat2("IO 错误: ", d.as_str()),
            CoturnError::TemplateRead(d) => concat2("模板读取失败: ", d.as_str()),
            CoturnError::ConfigWrite(d) => concat2("配置写入失败: ", d.as_str()),
        }
    }
}

/// Where the TURN server's configuration and its template are, and what was last applied.
#[derive(Debug)]
pub struct CoturnManager {
    config_path: String,
    template_path: String,
    current_secret: String,
    config_version: u64,
}

impl CoturnManager {
    /// The secret last written to the configuration file (empty before the first).
    pub closed spec fn secret(&self) -> Seq<char> {
        self.current_secret@
    }

    /// The configuration version last applied (0 before the first).
    pub closed spec fn version(&self) -> u64 {
        self.config_version
    }

    /// The path of the configuration file.
    pub closed spec fn config_file(&self) -> Seq<char> {
        self.config_path@
    }

    /// The path of the template.
    pub closed spec fn template_file(&self) -> Seq<char> {
        self.template_path@
    }

    pub fn new(config_path: String, template_path: String) -> (r: Self)
        ensures
            r.config_file() == config_path@,
            r.template_file() == template_path@,
            r.secret() == Seq::<char>::empty(),
            r.version() == 0,
    {
        CoturnManager { config_path, template_path, current_secret: String::new(), config_version: 0 }
    }

    /// The path of the configuration file.
    pub fn config_path(&self) -> (r: &str)
        ensures
            r@ == self.config_file(),
    {
        self.config_path.as_str()
    }

    /// The path of the template.
    pub fn template_path(&self) -> (r: &str)
        ensures
            r@ == self.template_file(),
    {
        self.template_path.as_str()
    }

    /// The configuration file made from `template` (see `rendered_config`).
    pub fn render_config(
        &self,
        template: &str,
        turn_config: &TurnConfig,
        agent_config: &AgentConfig,
        version: u64,
        generated_at: &str,
    ) -> (r: String)
        ensures
            r@ == rendered_config(template@, *turn_config, *agent_config, version, generated_at@),
    {
        proof {
            reveal_strlit("${GENERATED_AT}");
            reveal_strlit("${CONFIG_VERSION}");
            reveal_strlit("${TURN_PORT}");
            reveal_strlit("${TURN_TLS_PORT}");
            reveal_strlit("${PUBLIC_IP}");
            reveal_strlit("${AUTH_SECRET}");
            reveal_strlit("${REALM}");
            reveal_strlit("${RELAY_MIN_PORT}");
            reveal_strlit("${RELAY_MAX_PORT}");
            reveal_strlit("${TOTAL_QUOTA}");
            reveal_strlit("${USER_QUOTA}");
            reveal_strlit("${MAX_BPS}");
        }
        let s1 = replace_str(template, "${GENERATED_AT}", generated_at);
        let v = u64_to_string(version);
        let s2 = replace_str(s1.as_str(), "${CONFIG_VERSION}", v.as_str());
        let p = u64_to_string(agent_config.turn_port as u64);
        let s3 = replace_str(s2.as_str(), "${TURN_PORT}", p.as_str());
        let p = u64_to_string(agent_config.turn_tls_port as u64);
        let s4 = replace_str(s3.as_str(), "${TURN_TLS_PORT}", p.as_str());
        let s5 = replace_str(s4.as_str(), "${PUBLIC_IP}", agent_config.public_ip.as_str());
        let s6 = replace_str(s5.as_str(), "${AUTH_SECRET}", turn_config.auth_secret.as_str());
        let s7 = replace_str(s6.as_str(), "${REALM}", turn_config.realm.as_str());
        let p = u64_to_string(agent_config.relay_min_port as u64);
        let s8 = replace_str(s7.as_str(), "${RELAY_MIN_PORT}", p.as_str());
        let p = u64_to_string(agent_config.relay_max_port as u64);
        let s9 = replace_str(s8.as_str(), "${RELAY_MAX_PORT}", p.as_str());
        let q = u64_to_string(turn_config.total_quota as u64);
        let s10 = replace_str(s9.as_str(), "${TOTAL_QUOTA}", q.as_str());
        let q = u64_to_string(turn_config.user_quota as u64);
        let s11 = replace_str(s10.as_str(), "${USER_QUOTA}", q.as_str());
        let b = u64_to_string(turn_config.max_bps);
        replace_str(s11.as_str(), "${MAX_BPS}", b.as_str())
    }

    /// Records a configuration written to the file: its secret and version.
    pub fn config_applied(&mut self, turn_config: &TurnConfig, version: u64)
        ensures
            final(self).secret() == turn_config.auth_secret@,
            final(self).version() == version,
            final(self).config_file() == old(self).config_file(),
            final(self).template_file() == old(self).template_file(),
    {
        self.current_secret = turn_config.auth_secret.clone();
        self.config_version = version;
    }

    /// The configuration file `content` with the shared secret replaced by `secret` (see
    /// `secret_updated`).
    pub fn secret_update(&self, content: &str, secret: &str) -> (r: String)
        ensures
            r@ == secret_updated(content@, self.secret(), secret@),
    {
        proof {
            reveal_strlit("${AUTH_SECRET}");
            reveal_strlit("static-auth-secret=");
        }
        if self.current_secret.as_str().unicode_len() == 0 {
            replace_str(content, "${AUTH_SECRET}", secret)
        } else {
            let old_line = concat2("static-auth-secret=", self.current_secret.as_str());
            let new_line = concat2("static-auth-secret=", secret);
            replace_str(content, old_line.as_str(), new_line.as_str())
        }
    }

    /// Records a secret written to the file.
    pub fn secret_applied(&mut self, secret: &str)
        ensures
            final(self).secret() == secret@,
            final(self).version() == old(self).version(),
            final(self).config_file() == old(self).config_file(),
            final(self).template_file() == old(self).template_file(),
    {
        self.current_secret = String::from_str(secret);
    }

    /// The configuration version last applied.
    pub fn get_config_version(&self) -> (r: u64)
        ensures
            r == self.version(),
    {
        self.config_version
    }
}

} // verus!
