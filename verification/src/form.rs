//! The subscription form: its two required fields and how a request body
//! decodes into them.

use vstd::prelude::*;

use crate::outcome::FailureKind;

verus! {

/// A subscription request as submitted: both fields are required, and
/// neither is checked beyond being present.
#[derive(Debug)]
pub struct SubscriberData {
    pub name: String,
    pub email: String,
}

/// What a [`SubscriberData`] holds, as text.
pub struct FormModel {
    pub name: Seq<char>,
    pub email: Seq<char>,
}

impl View for SubscriberData {
    type V = FormModel;

    open spec fn view(&self) -> FormModel {
        FormModel { name: self.name@, email: self.email@ }
    }
}

/// A decoded form body: its key/value pairs in the order submitted.
pub type Pairs = Seq<(Seq<char>, Seq<char>)>;

/// The pairs of `pairs` whose key is `key`, in the order submitted.
pub open spec fn entries_for(pairs: Pairs, key: Seq<char>) -> Pairs {
    pairs.filter(|pair: (Seq<char>, Seq<char>)| pair.0 == key)
}

/// The form that a list of pairs carries: present when `name` and `email`
/// each occur exactly once; pairs under any other key are passed over.
pub open spec fn select_fields(pairs: Pairs) -> Option<FormModel> {
    let names = entries_for(pairs, "name"@);
    let emails = entries_for(pairs, "email"@);
    if names.len() == 1 && emails.len() == 1 {
        Some(FormModel { name: names[0].1, email: emails[0].1 })
    } else {
        None
    }
}

/// The text of each pair of a decoded body.
pub open spec fn pairs_view(pairs: Seq<(String, String)>) -> Pairs {
    pairs.map_values(|pair: (String, String)| (pair.0@, pair.1@))
}

/// The pairs that `serde_urlencoded::from_bytes` reads out of a form body,
/// or `None` where it turns the body down.
pub uninterp spec fn urlencoded_pairs(body: Seq<u8>) -> Option<Seq<(Seq<char>, Seq<char>)>>;

/// The form that a request body carries, if it carries one.
pub open spec fn decoded_form(body: Seq<u8>) -> Option<FormModel> {
    match urlencoded_pairs(body) {
        Some(pairs) => select_fields(pairs),
        None => None,
    }
}

impl SubscriberData {
    /// Decodes a form body. Succeeds exactly when the body parses and holds
    /// `name` and `email` once each; anything else is the client's error.
    pub fn decode(body: &[u8]) -> (decoded: Result<SubscriberData, FailureKind>)
        ensures
            match decoded {
                Ok(form) => decoded_form(body@) == Some(form@),
                Err(kind) => kind == FailureKind::ClientInput && decoded_form(body@) is None,
            },
    {
        match parse_pairs(body) {
            Ok(pairs) => SubscriberData::from_pairs(&pairs),
            Err(_) => Err(FailureKind::ClientInput),
        }
    }

    /// Picks the two required fields out of a decoded body.
    pub fn from_pairs(pairs: &Vec<(String, String)>) -> (decoded: Result<
        SubscriberData,
        FailureKind,
    >)
        ensures
            match decoded {
                Ok(form) => select_fields(pairs_view(pairs@)) == Some(form@),
                Err(kind) => kind == FailureKind::ClientInput && select_fields(
                    pairs_view(pairs@),
                ) is None,
            },
    {
        let name_key: String = "name".to_owned();
        let email_key: String = "email".to_owned();
        let mut name: Option<String> = None;
        let mut email: Option<String> = None;
        let mut names_seen: usize = 0;
        let mut emails_seen: usize = 0;
        let ghost all = pairs_view(pairs@);
        let mut i: usize = 0;
        while i < pairs.len()
            invariant
                i <= pairs.len(),
                all == pairs_view(pairs@),
                name_key@ == "name"@,
                email_key@ == "email"@,
                names_seen == entries_for(all.take(i as int), "name"@).len(),
                emails_seen == entries_for(all.take(i as int), "email"@).len(),
                names_seen <= i,
                emails_seen <= i,
                names_seen >= 1 ==> name is Some && name.unwrap()@ == entries_for(
                    all.take(i as int),
                    "name"@,
                )[0].1,
                emails_seen >= 1 ==> email is Some && email.unwrap()@ == entries_for(
                    all.take(i as int),
                    "email"@,
                )[0].1,
            decreases pairs.len() - i,
        {
            proof {
                lemma_entries_step(all, i as int, "name"@);
                lemma_entries_step(all, i as int, "email"@);
            }
            if pairs[i].0 == name_key {
                if names_seen == 0 {
                    name = Some(pairs[i].1.clone());
                }
                names_seen = names_seen + 1;
            }
            if pairs[i].0 == email_key {
                if emails_seen == 0 {
                    email = Some(pairs[i].1.clone());
                }
                emails_seen = emails_seen + 1;
            }
            i = i + 1;
        }
        assert(all.take(i as int) =~= all);
        if names_seen == 1 && emails_seen == 1 {
            match (name, email) {
                (Some(name), Some(email)) => Ok(SubscriberData { name, email }),
                _ => Err(FailureKind::ClientInput),
            }
        } else {
            Err(FailureKind::ClientInput)
        }
    }
}

/// The error with which `serde_urlencoded` turns a body down.
#[verifier::external_type_specification]
#[verifier::external_body]
pub struct ExFormError(serde_urlencoded::de::Error);

/// Calls `serde_urlencoded::from_bytes` for a list of string pairs, the
/// decoder of `application/x-www-form-urlencoded` bodies. Trusted: the result
/// depends on the bytes alone, so it is named, not spelled out. The name
/// stands for splitting at `&` and `=`, undoing `+` and percent escapes, and
/// reading the bytes as UTF-8; nothing of that is proved here.
#[verifier::external_body]
fn parse_pairs(body: &[u8]) -> (parsed: Result<Vec<(String, String)>, serde_urlencoded::de::Error>)
    ensures
        match parsed {
            Ok(pairs) => urlencoded_pairs(body@) == Some(pairs_view(pairs@)),
            Err(_) => urlencoded_pairs(body@) is None,
        },
{
    serde_urlencoded::from_bytes::<Vec<(String, String)>>(body)
}

/// Where no pair has the key `key`, no entry is found under it.
pub proof fn lemma_no_entries_without_key(pairs: Pairs, key: Seq<char>)
    requires
        forall|i: int| 0 <= i < pairs.len() ==> pairs[i].0 != key,
    ensures
        entries_for(pairs, key).len() == 0,
    decreases pairs.len(),
{
    reveal(Seq::filter);
    if pairs.len() > 0 {
        lemma_no_entries_without_key(pairs.drop_last(), key);
    }
}

/// Where the pair at `at` is the only one with the key `key`, it is the
/// only entry found under it.
pub proof fn lemma_sole_entry(pairs: Pairs, key: Seq<char>, at: int)
    requires
        0 <= at < pairs.len(),
        pairs[at].0 == key,
        forall|i: int| 0 <= i < pairs.len() && i != at ==> pairs[i].0 != key,
    ensures
        entries_for(pairs, key) == seq![pairs[at]],
    decreases pairs.len(),
{
    reveal(Seq::filter);
    let earlier = pairs.drop_last();
    if at == pairs.len() - 1 {
        lemma_no_entries_without_key(earlier, key);
        assert(entries_for(earlier, key).push(pairs[at]) =~= seq![pairs[at]]);
    } else {
        lemma_sole_entry(earlier, key, at);
    }
}

/// A form that lacks a required field is turned down: where no pair has the
/// key `name`, or none has the key `email`, no form is selected.
pub proof fn lemma_absent_field_selects_nothing(pairs: Pairs, key: Seq<char>)
    requires
        key == "name"@ || key == "email"@,
        forall|i: int| 0 <= i < pairs.len() ==> pairs[i].0 != key,
    ensures
        select_fields(pairs) is None,
{
    lemma_no_entries_without_key(pairs, key);
}

/// A form with each required field present once is taken, and its fields
/// verbatim: other keys, and the order of the pairs, make no difference.
pub proof fn lemma_fields_present_once_are_selected(pairs: Pairs, name_at: int, email_at: int)
    requires
        0 <= name_at < pairs.len(),
        0 <= email_at < pairs.len(),
        pairs[name_at].0 == "name"@,
        pairs[email_at].0 == "email"@,
        forall|i: int| 0 <= i < pairs.len() && i != name_at ==> pairs[i].0 != "name"@,
        forall|i: int| 0 <= i < pairs.len() && i != email_at ==> pairs[i].0 != "email"@,
    ensures
        select_fields(pairs) == Some(
            FormModel { name: pairs[name_at].1, email: pairs[email_at].1 },
        ),
{
    lemma_sole_entry(pairs, "name"@, name_at);
    lemma_sole_entry(pairs, "email"@, email_at);
}

/// A form that repeats a required field is turned down.
pub proof fn lemma_repeated_field_selects_nothing(
    pairs: Pairs,
    key: Seq<char>,
    one: int,
    other: int,
)
    requires
        key == "name"@ || key == "email"@,
        0 <= one < other < pairs.len(),
        pairs[one].0 == key,
        pairs[other].0 == key,
    ensures
        select_fields(pairs) is None,
{
    lemma_entries_grow(pairs, key, one + 1);
    lemma_entries_grow(pairs, key, other + 1);
    lemma_entries_step(pairs, one, key);
    lemma_entries_step(pairs, other, key);
    lemma_entries_grow(pairs.take(other), key, one + 1);
    assert(pairs.take(other).take(one + 1) =~= pairs.take(one + 1));
    lemma_entries_grow(pairs, key, pairs.len() as int);
    assert(pairs.take(pairs.len() as int) =~= pairs);
}

/// Extending a prefix of `pairs` by one pair extends the entries found
/// under `key` by that pair exactly when its key is `key`.
proof fn lemma_entries_step(pairs: Pairs, i: int, key: Seq<char>)
    requires
        0 <= i < pairs.len(),
    ensures
        entries_for(pairs.take(i + 1), key) == if pairs[i].0 == key {
            entries_for(pairs.take(i), key).push(pairs[i])
        } else {
            entries_for(pairs.take(i), key)
        },
{
    reveal(Seq::filter);
    assert(pairs.take(i + 1).drop_last() =~= pairs.take(i));
}

/// A prefix of `pairs` holds no more entries under `key` than `pairs` does.
proof fn lemma_entries_grow(pairs: Pairs, key: Seq<char>, upto: int)
    requires
        0 <= upto <= pairs.len(),
    ensures
        entries_for(pairs.take(upto), key).len() <= entries_for(pairs, key).len(),
    decreases pairs.len() - upto,
{
    if upto == pairs.len() {
        assert(pairs.take(upto) =~= pairs);
    } else {
        lemma_entries_step(pairs, upto, key);
        lemma_entries_grow(pairs, key, upto + 1);
    }
}

} // verus!
