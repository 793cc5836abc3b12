//! Automatic classification of incoming mail into the four system tags
//! (spam, subscription, work, personal).
use vstd::prelude::*;
use crate::models::{Email, Tag};
use crate::text::{
    concat, chars_of, find_char, str_contains, suffix_from, to_lowercase, first_index_of,
    seq_contains, str_to_lowercase,
};

verus! {

broadcast use vstd::string::group_string_axioms;

/// Name of the system tag for spam.
pub const SPAM_TAG: &'static str = "垃圾";

/// Name of the system tag for subscriptions and newsletters.
pub const SUBSCRIPTION_TAG: &'static str = "订阅";

/// Name of the system tag for work mail.
pub const WORK_TAG: &'static str = "工作";

/// Name of the system tag for personal mail.
pub const PERSONAL_TAG: &'static str = "个人";

/// Sender domains of companies, matched against `@` followed by the domain.
pub const WORK_DOMAINS: &'static str = "@(work|company|corp|business)\\.[a-z]+$";

/// Words that mark a newsletter or a subscription.
pub const SUBSCRIPTION_KEYWORDS: &'static str = "(?i)(newsletter|subscription|unsubscribe|订|订阅|news|资讯|推广|营销|广告)";

/// Words that mark spam.
pub const SPAM_KEYWORDS: &'static str = "(?i)(spam|junk|垃圾|中奖|免费|赚钱|优惠|折扣|促销|中奖|骗局|钓鱼|verify|确认|urgent|紧急)";

/// Words that mark work mail.
pub const WORK_KEYWORDS: &'static str = "(?i)(meeting|会议|report|报告|deadline|截止|project|项目|client|客户|同事|@工作|工作邮件)";

/// Sender domains of personal mail providers, matched against `@` followed by the domain.
pub const PERSONAL_DOMAINS: &'static str = "@(gmail|qq|163|outlook|hotmail|yahoo|sina|foxmail)\\.[a-z]+$";

/// Whether `pattern` is accepted by `regex::Regex::new`.
pub uninterp spec fn regex_compiles(pattern: Seq<char>) -> bool;

/// Whether the regular expression `pattern` matches somewhere in
/// `haystack`, as `regex::Regex::is_match` decides it.
pub uninterp spec fn regex_finds(pattern: Seq<char>, haystack: Seq<char>) -> bool;

/// Compiles `pattern` with `regex::Regex::new` and, when that succeeds,
/// asks `regex::Regex::is_match` about `haystack`. `None` when the pattern
/// does not compile. What the two calls decide is only named here
/// (`regex_compiles`, `regex_finds`), not stated.
#[verifier::external_body]
fn regex_search(pattern: &str, haystack: &str) -> (r: Option<bool>)
    ensures
        r is Some <==> regex_compiles(pattern@),
        r matches Some(b) ==> b == regex_finds(pattern@, haystack@),
{
    match regex::Regex::new(pattern) {
        Ok(re) => Some(re.is_match(haystack)),
        Err(_) => None,
    }
}

/// A pattern that compiles and matches the haystack.
pub open spec fn pattern_hit(pattern: Seq<char>, haystack: Seq<char>) -> bool {
    regex_compiles(pattern) && regex_finds(pattern, haystack)
}

/// Whether `pattern` matches `haystack`; a pattern that does not compile
/// matches nothing.
pub fn pattern_matches(pattern: &str, haystack: &str) -> (r: bool)
    ensures
        r == pattern_hit(pattern@, haystack@),
{
    match regex_search(pattern, haystack) {
        Some(b) => b,
        None => false,
    }
}

/// The lowercased part of an address after its first `@`; empty when it has none.
pub open spec fn domain_of(address: Seq<char>) -> Seq<char> {
    match first_index_of(address, '@') {
        Some(i) => str_to_lowercase(address.subrange(i + 1, address.len() as int)),
        None => Seq::empty(),
    }
}

/// Subject and plain-text body, joined by one space.
pub open spec fn content_of(email: Email) -> Seq<char> {
    email.subject@ + " "@ + email.body_text@
}

/// Spam: a spam keyword in the content, or a spam-like sender domain.
pub open spec fn spam_signal(content: Seq<char>, domain: Seq<char>) -> bool {
    ||| pattern_hit(SPAM_KEYWORDS@, content)
    ||| seq_contains(domain, "spam"@)
    ||| seq_contains(domain, "junk"@)
    ||| seq_contains(domain, "unknown"@)
}

/// Subscription: a newsletter keyword in the content, or a mailing-service domain.
pub open spec fn subscription_signal(content: Seq<char>, domain: Seq<char>) -> bool {
    ||| pattern_hit(SUBSCRIPTION_KEYWORDS@, content)
    ||| seq_contains(domain, "newsletter"@)
    ||| seq_contains(domain, "mailgun"@)
    ||| seq_contains(domain, "sendgrid"@)
    ||| seq_contains(domain, "mailchimp"@)
}

/// Work: a company domain, or a work keyword in the content.
pub open spec fn work_signal(content: Seq<char>, domain: Seq<char>) -> bool {
    ||| pattern_hit(WORK_DOMAINS@, "@"@ + domain)
    ||| pattern_hit(WORK_KEYWORDS@, content)
}

/// Personal: the domain of a personal mail provider.
pub open spec fn personal_signal(domain: Seq<char>) -> bool {
    pattern_hit(PERSONAL_DOMAINS@, "@"@ + domain)
}

/// The label chosen from the four signals: the first signal, in the order
/// spam, subscription, work, personal, whose system tag exists. No label
/// when none does.
pub open spec fn choose_label(
    tags: Map<Seq<char>, i64>,
    spam: bool,
    subscription: bool,
    work: bool,
    personal: bool,
) -> Seq<i64> {
    if spam && tags.contains_key(SPAM_TAG@) {
        seq![tags[SPAM_TAG@]]
    } else if subscription && tags.contains_key(SUBSCRIPTION_TAG@) {
        seq![tags[SUBSCRIPTION_TAG@]]
    } else if work && tags.contains_key(WORK_TAG@) {
        seq![tags[WORK_TAG@]]
    } else if personal && tags.contains_key(PERSONAL_TAG@) {
        seq![tags[PERSONAL_TAG@]]
    } else {
        Seq::empty()
    }
}

/// The tag ids an email receives, given the system tags by name.
pub open spec fn labels_for(tags: Map<Seq<char>, i64>, email: Email) -> Seq<i64> {
    let domain = domain_of(email.sender_email@);
    let content = content_of(email);
    choose_label(
        tags,
        spam_signal(content, domain),
        subscription_signal(content, domain),
        work_signal(content, domain),
        personal_signal(domain),
    )
}

/// The system tags by name; a later tag of the same name replaces an earlier one.
pub open spec fn system_tag_map(tags: Seq<Tag>) -> Map<Seq<char>, i64>
    decreases tags.len(),
{
    if tags.len() == 0 {
        Map::empty()
    } else {
        let rest = system_tag_map(tags.drop_last());
        let t = tags.last();
        if t.is_system {
            rest.insert(t.name@, t.id)
        } else {
            rest
        }
    }
}

/// The map that a list of (name, id) entries describes; later entries win.
pub open spec fn entries_map(entries: Seq<(String, i64)>) -> Map<Seq<char>, i64>
    decreases entries.len(),
{
    if entries.len() == 0 {
        Map::empty()
    } else {
        entries_map(entries.drop_last()).insert(entries.last().0@, entries.last().1)
    }
}

/// Entries after position `i` that do not carry `key` do not affect it.
proof fn lemma_entries_tail_irrelevant(entries: Seq<(String, i64)>, key: Seq<char>, i: int)
    requires
        0 <= i <= entries.len(),
        forall|j: int| i <= j < entries.len() ==> #[trigger] entries[j].0@ != key,
    ensures
        entries_map(entries).contains_key(key) == entries_map(entries.take(i)).contains_key(key),
        entries_map(entries).contains_key(key) ==> entries_map(entries)[key] == entries_map(
            entries.take(i),
        )[key],
    decreases entries.len() - i,
{
    if entries.len() == i {
        assert(entries.take(i) =~= entries);
    } else {
        let front = entries.drop_last();
        assert(front.take(i) =~= entries.take(i));
        assert(entries.last().0@ != key);
        lemma_entries_tail_irrelevant(front, key, i);
    }
}

/// Classifies emails against the system tags it was built with.
pub struct EmailClassifier {
    system_tags: Vec<(String, i64)>,
}

impl View for EmailClassifier {
    type V = Map<Seq<char>, i64>;

    /// System tag ids by tag name.
    closed spec fn view(&self) -> Map<Seq<char>, i64> {
        entries_map(self.system_tags@)
    }
}

impl EmailClassifier {
    /// A classifier that knows the system tags among `tags`.
    pub fn new(tags: &[Tag]) -> (c: Self)
        ensures
            c@ == system_tag_map(tags@),
    {
        let mut system_tags: Vec<(String, i64)> = Vec::new();
        let mut i: usize = 0;
        while i < tags.len()
            invariant
                i <= tags.len(),
                entries_map(system_tags@) == system_tag_map(tags@.take(i as int)),
            decreases tags.len() - i,
        {
            let tag = &tags[i];
            let ghost before = system_tags@;
            if tag.is_system {
                system_tags.push((tag.name.clone(), tag.id));
                assert(system_tags@.drop_last() =~= before);
            }
            assert(tags@.take(i + 1).drop_last() =~= tags@.take(i as int));
            i = i + 1;
        }
        assert(tags@.take(tags.len() as int) =~= tags@);
        EmailClassifier { system_tags }
    }

    /// The id of the system tag called `name`, if there is one.
    pub fn tag_id(&self, name: &String) -> (r: Option<i64>)
        ensures
            r == (if self@.contains_key(name@) {
                Some(self@[name@])
            } else {
                None::<i64>
            }),
    {
        let mut i: usize = self.system_tags.len();
        while i > 0
            invariant
                i <= self.system_tags.len(),
                forall|j: int|
                    i <= j < self.system_tags@.len() ==> #[trigger] self.system_tags@[j].0@
                        != name@,
            decreases i,
        {
            if self.system_tags[i - 1].0 == *name {
                proof {
                    let s = self.system_tags@;
                    lemma_entries_tail_irrelevant(s, name@, i as int);
                    assert(s.take(i as int).drop_last() =~= s.take(i - 1));
                    assert(s.take(i as int).last() == s[i - 1]);
                }
                return Some(self.system_tags[i - 1].1);
            }
            i = i - 1;
        }
        proof {
            lemma_entries_tail_irrelevant(self.system_tags@, name@, 0);
            assert(self.system_tags@.take(0) =~= Seq::<(String, i64)>::empty());
        }
        None
    }

    /// The tag ids `email` receives: at most one, the first of spam,
    /// subscription, work and personal whose signal fires and whose system
    /// tag exists.
    pub fn classify(&self, email: &Email) -> (r: Vec<i64>)
        ensures
            r@ == labels_for(self@, *email),
    {
        let mut tags: Vec<i64> = Vec::new();
        let domain = self.extract_domain(email.sender_email.as_str());
        let with_space = concat(email.subject.as_str(), " ");
        let combined = concat(with_space.as_str(), email.body_text.as_str());
        assert(combined@ == content_of(*email));
        let ghost tag_map = self@;
        let ghost content = combined@;
        let ghost d = domain@;

        if self.is_spam(combined.as_str(), domain.as_str()) {
            if let Some(tag_id) = self.tag_id(&String::from_str(SPAM_TAG)) {
                tags.push(tag_id);
                assert(tags@ =~= labels_for(tag_map, *email));
                return tags;
            }
        }
        if self.is_subscription(combined.as_str(), domain.as_str()) {
            if let Some(tag_id) = self.tag_id(&String::from_str(SUBSCRIPTION_TAG)) {
                tags.push(tag_id);
                assert(tags@ =~= labels_for(tag_map, *email));
                return tags;
            }
        }
        if self.is_work(combined.as_str(), domain.as_str()) {
            if let Some(tag_id) = self.tag_id(&String::from_str(WORK_TAG)) {
                tags.push(tag_id);
                assert(tags@ =~= labels_for(tag_map, *email));
                return tags;
            }
        }
        if self.is_personal(domain.as_str()) {
            if let Some(tag_id) = self.tag_id(&String::from_str(PERSONAL_TAG)) {
                tags.push(tag_id);
            }
        }
        assert(tags@ =~= labels_for(tag_map, *email));
        tags
    }

    /// The lowercased domain of a sender address: everything after its
    /// first `@`, or empty when there is none.
    pub fn extract_domain(&self, email: &str) -> (r: String)
        ensures
            r@ == domain_of(email@),
    {
        let chars = chars_of(email);
        match find_char(&chars, '@') {
            Some(idx) => {
                assert(crate::text::is_first_index(chars@, '@', idx as int));
                assert(idx < chars.len());
                let rest = suffix_from(email, idx + 1);
                to_lowercase(rest.as_str())
            },
            None => String::new(),
        }
    }

    /// Whether the content or the sender domain looks like spam.
    pub fn is_spam(&self, content: &str, domain: &str) -> (r: bool)
        ensures
            r == spam_signal(content@, domain@),
    {
        if pattern_matches(SPAM_KEYWORDS, content) {
            return true;
        }
        str_contains(domain, "spam") || str_contains(domain, "junk") || str_contains(
            domain,
            "unknown",
        )
    }

    /// Whether the content or the sender domain looks like a subscription.
    pub fn is_subscription(&self, content: &str, domain: &str) -> (r: bool)
        ensures
            r == subscription_signal(content@, domain@),
    {
        if pattern_matches(SUBSCRIPTION_KEYWORDS, content) {
            return true;
        }
        str_contains(domain, "newsletter") || str_contains(domain, "mailgun") || str_contains(
            domain,
            "sendgrid",
        ) || str_contains(domain, "mailchimp")
    }

    /// Whether the sender domain or the content looks like work mail.
    pub fn is_work(&self, content: &str, domain: &str) -> (r: bool)
        ensures
            r == work_signal(content@, domain@),
    {
        let at_domain = concat("@", domain);
        if pattern_matches(WORK_DOMAINS, at_domain.as_str()) {
            return true;
        }
        if pattern_matches(WORK_KEYWORDS, content) {
            return true;
        }
        false
    }

    /// Whether the sender domain belongs to a personal mail provider.
    pub fn is_personal(&self, domain: &str) -> (r: bool)
        ensures
            r == personal_signal(domain@),
    {
        let at_domain = concat("@", domain);
        pattern_matches(PERSONAL_DOMAINS, at_domain.as_str())
    }
}

/// A tag name in the system tag map comes from a system tag of that name
/// and id in the list it was built from.
pub proof fn lemma_system_tag_map_source(tags: Seq<Tag>, name: Seq<char>)
    requires
        system_tag_map(tags).contains_key(name),
    ensures
        exists|j: int|
            0 <= j < tags.len() && #[trigger] tags[j].is_system && tags[j].name@ == name
                && tags[j].id == system_tag_map(tags)[name],
    decreases tags.len(),
{
    let rest = tags.drop_last();
    let t = tags.last();
    if t.is_system && t.name@ == name {
        assert(tags[tags.len() - 1].is_system);
    } else {
        lemma_system_tag_map_source(rest, name);
        let j = choose|j: int|
            0 <= j < rest.len() && #[trigger] rest[j].is_system && rest[j].name@ == name
                && rest[j].id == system_tag_map(rest)[name];
        assert(tags[j] == rest[j]);
        assert(tags[j].is_system);
    }
}

/// Every system tag's name is in the system tag map: a category whose
/// system tag exists can always be assigned.
pub proof fn lemma_system_tag_in_map(tags: Seq<Tag>, j: int)
    requires
        0 <= j < tags.len(),
        tags[j].is_system,
    ensures
        system_tag_map(tags).contains_key(tags[j].name@),
    decreases tags.len(),
{
    if j < tags.len() - 1 {
        let rest = tags.drop_last();
        assert(rest[j] == tags[j]);
        lemma_system_tag_in_map(rest, j);
    }
}

/// Without system tags, the system tag map is empty.
pub proof fn lemma_no_system_tags_empty_map(tags: Seq<Tag>)
    requires
        forall|j: int| 0 <= j < tags.len() ==> !(#[trigger] tags[j]).is_system,
    ensures
        system_tag_map(tags) =~= Map::<Seq<char>, i64>::empty(),
    decreases tags.len(),
{
    if tags.len() > 0 {
        let rest = tags.drop_last();
        assert forall|j: int| 0 <= j < rest.len() implies !(#[trigger] rest[j]).is_system by {
            assert(rest[j] == tags[j]);
        }
        lemma_no_system_tags_empty_map(rest);
        assert(!tags[tags.len() - 1].is_system);
    }
}

/// An email receives at most one tag.
pub proof fn lemma_at_most_one_label(tags: Seq<Tag>, email: Email)
    ensures
        labels_for(system_tag_map(tags), email).len() <= 1,
{
}

/// A tag an email receives is a system tag of the given list, and its name
/// is one of the four category names.
pub proof fn lemma_label_is_system_tag(tags: Seq<Tag>, email: Email)
    ensures
        labels_for(system_tag_map(tags), email).len() == 1 ==> exists|j: int|
            0 <= j < tags.len() && #[trigger] tags[j].is_system && tags[j].id == labels_for(
                system_tag_map(tags),
                email,
            )[0] && (tags[j].name@ == SPAM_TAG@ || tags[j].name@ == SUBSCRIPTION_TAG@
                || tags[j].name@ == WORK_TAG@ || tags[j].name@ == PERSONAL_TAG@),
{
    let m = system_tag_map(tags);
    let labels = labels_for(m, email);
    let content = content_of(email);
    let domain = domain_of(email.sender_email@);
    if labels.len() == 1 {
        if spam_signal(content, domain) && m.contains_key(SPAM_TAG@) {
            lemma_system_tag_map_source(tags, SPAM_TAG@);
        } else if subscription_signal(content, domain) && m.contains_key(SUBSCRIPTION_TAG@) {
            lemma_system_tag_map_source(tags, SUBSCRIPTION_TAG@);
        } else if work_signal(content, domain) && m.contains_key(WORK_TAG@) {
            lemma_system_tag_map_source(tags, WORK_TAG@);
        } else {
            lemma_system_tag_map_source(tags, PERSONAL_TAG@);
        }
    }
}

/// Without any system tag, no email receives a tag.
pub proof fn lemma_no_system_tags_no_labels(tags: Seq<Tag>, email: Email)
    requires
        forall|j: int| 0 <= j < tags.len() ==> !(#[trigger] tags[j]).is_system,
    ensures
        labels_for(system_tag_map(tags), email).len() == 0,
{
    lemma_no_system_tags_empty_map(tags);
}

/// Spam wins: when the spam signal fires and a spam system tag exists, the
/// email receives exactly that tag, whatever the other signals say.
pub proof fn lemma_spam_takes_precedence(tags: Seq<Tag>, email: Email)
    requires
        spam_signal(content_of(email), domain_of(email.sender_email@)),
        system_tag_map(tags).contains_key(SPAM_TAG@),
    ensures
        labels_for(system_tag_map(tags), email) == seq![system_tag_map(tags)[SPAM_TAG@]],
{
}

/// Subscription comes next: when the spam rule does not apply (no spam
/// signal, or no spam tag) and the subscription signal fires with a
/// subscription tag present, the email receives exactly that tag, whatever
/// the work and personal signals say.
pub proof fn lemma_subscription_before_work_and_personal(tags: Map<Seq<char>, i64>, email: Email)
    requires
        !(spam_signal(content_of(email), domain_of(email.sender_email@)) && tags.contains_key(
            SPAM_TAG@,
        )),
        subscription_signal(content_of(email), domain_of(email.sender_email@)),
        tags.contains_key(SUBSCRIPTION_TAG@),
    ensures
        labels_for(tags, email) == seq![tags[SUBSCRIPTION_TAG@]],
{
}

/// Work takes precedence over personal: when neither the spam nor the
/// subscription rule applies and the work signal fires with a work tag
/// present, the email receives exactly the work tag, even when the sender's
/// domain is a personal one.
pub proof fn lemma_work_before_personal(tags: Map<Seq<char>, i64>, email: Email)
    requires
        !(spam_signal(content_of(email), domain_of(email.sender_email@)) && tags.contains_key(
            SPAM_TAG@,
        )),
        !(subscription_signal(content_of(email), domain_of(email.sender_email@))
            && tags.contains_key(SUBSCRIPTION_TAG@)),
        work_signal(content_of(email), domain_of(email.sender_email@)),
        tags.contains_key(WORK_TAG@),
    ensures
        labels_for(tags, email) == seq![tags[WORK_TAG@]],
{
}

/// Personal comes last: the personal tag is given exactly when no earlier
/// rule applies, the sender's domain is a personal one and a personal tag
/// exists.
pub proof fn lemma_personal_last(tags: Map<Seq<char>, i64>, email: Email)
    requires
        !(spam_signal(content_of(email), domain_of(email.sender_email@)) && tags.contains_key(
            SPAM_TAG@,
        )),
        !(subscription_signal(content_of(email), domain_of(email.sender_email@))
            && tags.contains_key(SUBSCRIPTION_TAG@)),
        !(work_signal(content_of(email), domain_of(email.sender_email@)) && tags.contains_key(
            WORK_TAG@,
        )),
    ensures
        personal_signal(domain_of(email.sender_email@)) && tags.contains_key(PERSONAL_TAG@)
            ==> labels_for(tags, email) == seq![tags[PERSONAL_TAG@]],
        !(personal_signal(domain_of(email.sender_email@)) && tags.contains_key(PERSONAL_TAG@))
            ==> labels_for(tags, email).len() == 0,
{
}

/// An email with no signal at all receives no tag.
pub proof fn lemma_no_signal_no_label(tags: Seq<Tag>, email: Email)
    requires
        !spam_signal(content_of(email), domain_of(email.sender_email@)),
        !subscription_signal(content_of(email), domain_of(email.sender_email@)),
        !work_signal(content_of(email), domain_of(email.sender_email@)),
        !personal_signal(domain_of(email.sender_email@)),
    ensures
        labels_for(system_tag_map(tags), email).len() == 0,
{
}

/// Tags that are not system tags play no part in classification.
pub proof fn lemma_non_system_tag_ignored(tags: Seq<Tag>, extra: Tag, email: Email)
    requires
        !extra.is_system,
    ensures
        labels_for(system_tag_map(tags.push(extra)), email) == labels_for(system_tag_map(tags), email),
{
    assert(tags.push(extra).drop_last() =~= tags);
}

/// Only the sender address, the subject and the plain-text body of an
/// email decide its tags.
pub proof fn lemma_labels_depend_on_sender_subject_body(tags: Map<Seq<char>, i64>, a: Email, b: Email)
    requires
        a.sender_email@ == b.sender_email@,
        a.subject@ == b.subject@,
        a.body_text@ == b.body_text@,
    ensures
        labels_for(tags, a) == labels_for(tags, b),
{
}

/// Classifies `email` against the system tags among `tags`.
pub fn auto_classify_email(email: &Email, tags: &[Tag]) -> (r: Vec<i64>)
    ensures
        r@ == labels_for(system_tag_map(tags@), *email),
{
    let classifier = EmailClassifier::new(tags);
    classifier.classify(email)
}

} // verus!
