//! The command that issues a credential.

use vstd::prelude::*;
use vstd::utf8::encode_utf8;
use crate::cli_state::{spec_is_not_found, spec_missing_identifier, spec_position_by_optional_name};
use crate::codec::{views, Wire};
use crate::command::identity::{spec_identifier_text, EncodeFormat};
use crate::command::{spec_wrote_line, CommandError, CommandGlobalOpts, LineKind};
use crate::credential::{
    issue_credential, spec_expiry, spec_issue, Attribute, AttributeView, Credential,
    CredentialView, MAX_CREDENTIAL_VALIDITY,
};
use crate::identity::Identifier;
use crate::text::{hex_encode, same_text, spec_hex};
use crate::vault::XXVault;

verus! {

/// Issues a credential for an identity.
#[derive(Debug, PartialEq, Eq)]
pub struct IssueCommand {
    /// Name of the identity that issues; the default identity where none is
    /// given.
    pub as_identity: Option<String>,
    /// The identity that the credential is for.
    pub identity_identifier: Identifier,
    /// Attributes in `key=value` format to be attached to the member.
    pub attributes: Vec<String>,
    pub vault: Option<String>,
    pub encode_format: EncodeFormat,
}

/// The position of the first `=` in `text` from `from` on.
pub open spec fn spec_first_equals(text: Seq<char>, from: int) -> Option<int>
    decreases text.len() - from,
{
    if from < 0 || from >= text.len() {
        None
    } else if text[from] == '=' {
        Some(from)
    } else {
        spec_first_equals(text, from + 1)
    }
}

/// The key and the value of an attribute: what stands before its first `=`
/// and what stands after it. `None` where there is no `=`.
pub open spec fn spec_parse_attribute(text: Seq<char>) -> Option<(Seq<char>, Seq<char>)> {
    match spec_first_equals(text, 0) {
        None => None,
        Some(at) => Some((text.subrange(0, at), text.subrange(at + 1, text.len() as int))),
    }
}

/// The position of the first pair, from `from` on, with the given key.
pub open spec fn spec_key_position(
    pairs: Seq<(Seq<char>, Seq<char>)>,
    key: Seq<char>,
    from: int,
) -> Option<int>
    decreases pairs.len() - from,
{
    if from < 0 || from >= pairs.len() {
        None
    } else if pairs[from].0 == key {
        Some(from)
    } else {
        spec_key_position(pairs, key, from + 1)
    }
}

/// `pairs` with `key` set to `value`: in the place where the key stands
/// already, else at the end.
pub open spec fn spec_put(
    pairs: Seq<(Seq<char>, Seq<char>)>,
    key: Seq<char>,
    value: Seq<char>,
) -> Seq<(Seq<char>, Seq<char>)> {
    match spec_key_position(pairs, key, 0) {
        Some(at) => pairs.update(at, (key, value)),
        None => pairs.push((key, value)),
    }
}

/// The attributes that the first `count` of `texts` set, or `None` where
/// one of them has no `=`. A key that is set again keeps its place and
/// takes the later value.
pub open spec fn spec_attributes(texts: Seq<Seq<char>>, count: nat) -> Option<
    Seq<(Seq<char>, Seq<char>)>,
>
    decreases count,
{
    if count == 0 {
        Some(Seq::empty())
    } else {
        match spec_attributes(texts, (count - 1) as nat) {
            None => None,
            Some(pairs) => match spec_parse_attribute(texts[count - 1]) {
                None => None,
                Some((key, value)) => Some(spec_put(pairs, key, value)),
            },
        }
    }
}

/// The pairs of texts as pairs of their characters.
pub open spec fn pair_views(pairs: Seq<(String, String)>) -> Seq<(Seq<char>, Seq<char>)> {
    Seq::new(pairs.len(), |i: int| (pairs[i].0@, pairs[i].1@))
}

/// The texts as their characters.
pub open spec fn text_views(texts: Seq<String>) -> Seq<Seq<char>> {
    Seq::new(texts.len(), |i: int| texts[i]@)
}

/// Splits an attribute at its first `=`.
pub fn parse_attribute(text: &str) -> (r: Option<(String, String)>)
    ensures
        match r {
            Some((key, value)) => spec_parse_attribute(text@) == Some((key@, value@)),
            None => spec_parse_attribute(text@) is None,
        },
{
    let len = text.unicode_len();
    let mut i: usize = 0;
    while i < len
        invariant
            0 <= i <= len,
            len == text@.len(),
            spec_first_equals(text@, 0) == spec_first_equals(text@, i as int),
        decreases len - i,
    {
        if text.get_char(i) == '=' {
            let key = String::from_str(text.substring_char(0, i));
            let value = String::from_str(text.substring_char(i + 1, len));
            return Some((key, value));
        }
        i += 1;
    }
    None
}

/// Sets `key` to `value` in `pairs`.
fn put(pairs: &mut Vec<(String, String)>, key: String, value: String)
    ensures
        pair_views(final(pairs)@) == spec_put(pair_views(old(pairs)@), key@, value@),
{
    let mut i: usize = 0;
    while i < pairs.len()
        invariant
            0 <= i <= pairs@.len(),
            *pairs == *old(pairs),
            spec_key_position(pair_views(pairs@), key@, 0) == spec_key_position(
                pair_views(pairs@),
                key@,
                i as int,
            ),
        decreases pairs@.len() - i,
    {
        if same_text(pairs[i].0.as_str(), key.as_str()) {
            pairs[i] = (key, value);
            assert(pair_views(pairs@) =~= pair_views(old(pairs)@).update(
                i as int,
                (key@, value@),
            ));
            return ;
        }
        i += 1;
    }
    pairs.push((key, value));
    assert(pair_views(pairs@) =~= pair_views(old(pairs)@).push((key@, value@)));
}

impl IssueCommand {
    /// The attributes to attest, by key. An attribute without a `=` is an
    /// error.
    pub fn attributes(&self) -> (r: Result<Vec<(String, String)>, CommandError>)
        ensures
            match r {
                Ok(pairs) => spec_attributes(
                    text_views(self.attributes@),
                    self.attributes@.len(),
                ) == Some(pair_views(pairs@)),
                Err(error) => spec_attributes(
                    text_views(self.attributes@),
                    self.attributes@.len(),
                ) is None && (error matches CommandError::Message(message) && message@
                    == "value expected)"@),
            },
    {
        let mut pairs: Vec<(String, String)> = Vec::new();
        let mut i: usize = 0;
        while i < self.attributes.len()
            invariant
                0 <= i <= self.attributes@.len(),
                spec_attributes(text_views(self.attributes@), i as nat) == Some(
                    pair_views(pairs@),
                ),
            decreases self.attributes@.len() - i,
        {
            match parse_attribute(self.attributes[i].as_str()) {
                None => {
                    proof {
                        lemma_attributes_stay_refused(
                            text_views(self.attributes@),
                            (i + 1) as nat,
                            self.attributes@.len(),
                        );
                    }
                    return Err(CommandError::Message(String::from_str("value expected)")));
                },
                Some((key, value)) => {
                    put(&mut pairs, key, value);
                },
            }
            i += 1;
        }
        Ok(pairs)
    }

    pub fn identity_identifier(&self) -> (identifier: &Identifier)
        ensures
            identifier == self.identity_identifier,
    {
        &self.identity_identifier
    }
}

/// Once an attribute is refused, the attributes after it change nothing.
pub proof fn lemma_attributes_stay_refused(texts: Seq<Seq<char>>, count: nat, longer: nat)
    requires
        count <= longer,
        spec_attributes(texts, count) is None,
    ensures
        spec_attributes(texts, longer) is None,
    decreases longer,
{
    if count < longer {
        lemma_attributes_stay_refused(texts, count, (longer - 1) as nat);
    }
}

/// The name of the attribute that says which authority a credential
/// belongs to.
pub open spec fn spec_trust_context_id() -> Seq<char> {
    "trust_context_id"@
}

/// The attributes as a credential holds them: each key and each value in
/// UTF-8, in order.
pub open spec fn spec_attribute_bytes(pairs: Seq<(Seq<char>, Seq<char>)>) -> Seq<AttributeView> {
    Seq::new(
        pairs.len(),
        |i: int| AttributeView { name: encode_utf8(pairs[i].0), value: encode_utf8(pairs[i].1) },
    )
}

/// The attributes of an issued credential: first the authority that
/// issued it, under the key `trust_context_id`, then those that were
/// asked for.
pub open spec fn spec_issued_attributes(
    authority: Seq<u8>,
    pairs: Seq<(Seq<char>, Seq<char>)>,
) -> Seq<AttributeView> {
    seq![
        AttributeView {
            name: encode_utf8(spec_trust_context_id()),
            value: encode_utf8(spec_identifier_text(authority)),
        },
    ] + spec_attribute_bytes(pairs)
}

/// A credential as it is shown.
pub open spec fn spec_credential_text(format: EncodeFormat, credential: CredentialView) -> Seq<
    char,
> {
    match format {
        EncodeFormat::Hex => spec_hex(Credential::spec_encode(credential)),
        EncodeFormat::Plain => "Subject: "@ + spec_identifier_text(credential.subject)
            + "\nIssuer: "@ + spec_identifier_text(credential.issuer) + "\nCredential: "@
            + spec_hex(Credential::spec_encode(credential)),
    }
}

fn attribute_bytes(pairs: &Vec<(String, String)>, attributes: &mut Vec<Attribute>)
    ensures
        views(final(attributes)@) == views(old(attributes)@) + spec_attribute_bytes(
            pair_views(pairs@),
        ),
{
    let mut i: usize = 0;
    while i < pairs.len()
        invariant
            0 <= i <= pairs@.len(),
            views(attributes@) == views(old(attributes)@) + spec_attribute_bytes(
                pair_views(pairs@),
            ).take(i as int),
        decreases pairs@.len() - i,
    {
        let ghost before = views(attributes@);
        let attribute = Attribute {
            name: pairs[i].0.as_str().as_bytes_vec(),
            value: pairs[i].1.as_str().as_bytes_vec(),
        };
        attributes.push(attribute);
        proof {
            let all = spec_attribute_bytes(pair_views(pairs@));
            assert(views(attributes@) =~= before.push(attribute@));
            assert(all.take(i + 1) =~= all.take(i as int).push(all[i as int]));
            assert(attribute@ == all[i as int]);
            assert(views(attributes@) =~= views(old(attributes)@) + all.take(i + 1));
        }
        i += 1;
    }
    proof {
        let all = spec_attribute_bytes(pair_views(pairs@));
        assert(all.take(pairs@.len() as int) =~= all);
    }
}

/// The text of an identifier.
fn identifier_text(identifier: &Identifier) -> (text: String)
    ensures
        text@ == spec_identifier_text(identifier@),
{
    let digits = hex_encode(identifier.0.as_slice());
    let mut text = String::from_str("I");
    text.append(digits.as_str());
    text
}

/// The credential as it is shown.
pub fn credential_text(format: EncodeFormat, credential: &Credential) -> (text: String)
    ensures
        text@ == spec_credential_text(format, credential@),
{
    let mut encoded: Vec<u8> = Vec::new();
    credential.encode(&mut encoded);
    assert(encoded@ =~= Credential::spec_encode(credential@));
    let digits = hex_encode(encoded.as_slice());
    match format {
        EncodeFormat::Hex => digits,
        EncodeFormat::Plain => {
            let subject = identifier_text(&credential.subject);
            let issuer = identifier_text(&credential.issuer);
            let mut text = String::from_str("Subject: ");
            text.append(subject.as_str());
            text.append("\nIssuer: ");
            text.append(issuer.as_str());
            text.append("\nCredential: ");
            text.append(digits.as_str());
            text
        },
    }
}

impl IssueCommand {
    /// What running this command does at time `now`, with the vault and
    /// the signing key of the issuing identity. Where the name selects no
    /// identity to issue as, or an attribute has no `=`, the command fails
    /// and changes nothing. Otherwise it writes one line: the credential
    /// that the identity issues to the subject, for the longest validity,
    /// attesting the authority and the attributes asked for.
    pub open spec fn ran<V: XXVault>(
        self,
        vault: &V,
        signing_key: Seq<u8>,
        now: u64,
        before: CommandGlobalOpts,
        after: CommandGlobalOpts,
        result: Result<(), CommandError>,
    ) -> bool {
        match spec_position_by_optional_name(before.state.identities@, self.as_identity) {
            None => after == before && (result matches Err(CommandError::State(error))
                && spec_is_not_found(error, spec_missing_identifier(self.as_identity))),
            Some(i) => match spec_attributes(
                text_views(self.attributes@),
                self.attributes@.len(),
            ) {
                None => after == before && (result matches Err(CommandError::Message(message))
                    && message@ == "value expected)"@),
                Some(pairs) => {
                    let authority = before.state.identities@[i].identity@.identifier;
                    &&& result is Ok
                    &&& spec_wrote_line(
                        before,
                        after,
                        LineKind::Plain,
                        spec_credential_text(
                            self.encode_format,
                            spec_issue(
                                vault,
                                signing_key,
                                authority,
                                self.identity_identifier@,
                                spec_issued_attributes(authority, pairs),
                                now,
                                Some(spec_expiry(now, MAX_CREDENTIAL_VALIDITY)),
                            ),
                        ),
                        None,
                    )
                },
            },
        }
    }

    pub fn run<V: XXVault>(
        self,
        vault: &V,
        signing_key: &[u8],
        now: u64,
        options: &mut CommandGlobalOpts,
    ) -> (result: Result<(), CommandError>)
        ensures
            self.ran(vault, signing_key@, now, *old(options), *final(options), result),
    {
        let authority = match options.state.get_identifier_by_optional_name(&self.as_identity) {
            Err(error) => {
                return Err(CommandError::State(error));
            },
            Ok(identifier) => identifier,
        };
        let pairs = match self.attributes() {
            Err(error) => {
                return Err(error);
            },
            Ok(pairs) => pairs,
        };
        let mut attributes: Vec<Attribute> = Vec::new();
        let shown = identifier_text(&authority);
        let first = Attribute {
            name: "trust_context_id".as_bytes_vec(),
            value: shown.as_str().as_bytes_vec(),
        };
        attributes.push(first);
        assert(views(attributes@) =~= seq![first@]);
        attribute_bytes(&pairs, &mut attributes);
        assert(views(attributes@) =~= spec_issued_attributes(authority@, pair_views(pairs@)));
        let credential = issue_credential(
            vault,
            &authority,
            signing_key,
            &self.identity_identifier,
            attributes,
            now,
            MAX_CREDENTIAL_VALIDITY,
        );
        let text = credential_text(self.encode_format, &credential);
        options.write_line(LineKind::Plain, text, None);
        Ok(())
    }
}

} // verus!
