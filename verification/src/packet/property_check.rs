use vstd::prelude::*;
use crate::packet::error::MqttError;
use crate::packet::property::{property_result, props_parsed_upto, Properties, Property, PropertyId};

verus! {

/// The packets whose property lists are checked.
#[derive(Debug, Clone, Copy, PartialEq, Eq, Structural)]
pub enum PropertySet {
    Connect,
    Will,
    Publish,
}

/// Whether a property may appear in a list of the given kind.
pub open spec fn spec_allowed(set: PropertySet, id: PropertyId) -> bool {
    match set {
        PropertySet::Connect => id == PropertyId::SessionExpiryInterval || id == PropertyId::ReceiveMaximum
            || id == PropertyId::MaximumPacketSize || id == PropertyId::TopicAliasMaximum || id
            == PropertyId::RequestResponseInformation || id == PropertyId::RequestProblemInformation
            || id == PropertyId::UserProperty || id == PropertyId::AuthenticationMethod || id
            == PropertyId::AuthenticationData,
        PropertySet::Will => id == PropertyId::WillDelayInterval || id
            == PropertyId::PayloadFormatIndicator || id == PropertyId::MessageExpiryInterval || id
            == PropertyId::ContentType || id == PropertyId::ResponseTopic || id
            == PropertyId::CorrelationData || id == PropertyId::UserProperty,
        PropertySet::Publish => id == PropertyId::ContentType || id == PropertyId::CorrelationData
            || id == PropertyId::MessageExpiryInterval || id == PropertyId::PayloadFormatIndicator
            || id == PropertyId::ResponseTopic || id == PropertyId::SubscriptionIdentifier || id
            == PropertyId::TopicAlias || id == PropertyId::UserProperty,
    }
}

/// Whether a property may appear more than once in a list of the given kind.
pub open spec fn spec_repeatable(set: PropertySet, id: PropertyId) -> bool {
    match set {
        PropertySet::Publish => id == PropertyId::UserProperty || id == PropertyId::SubscriptionIdentifier,
        _ => id == PropertyId::UserProperty,
    }
}

/// Every identifier is allowed and only repeatable ones occur twice.
pub open spec fn ids_ok(ids: Seq<PropertyId>, set: PropertySet) -> bool {
    &&& forall|i: int| 0 <= i < ids.len() ==> spec_allowed(set, #[trigger] ids[i])
    &&& forall|i: int, j: int|
        0 <= i < j < ids.len() && #[trigger] ids[i] == #[trigger] ids[j] ==> spec_repeatable(set, ids[i])
}

/// The identifiers of a property list.
pub open spec fn prop_ids(ps: Seq<Property>) -> Seq<PropertyId> {
    ps.map_values(|p: Property| p.spec_id())
}

/// The identifiers of the properties encoded, one after the other, in `r`.
pub open spec fn region_ids(r: Seq<u8>) -> Seq<PropertyId>
    decreases r.len(),
{
    if r.len() == 0 {
        Seq::<PropertyId>::empty()
    } else {
        match property_result(r) {
            Ok(n) => if 1 <= n <= r.len() {
                seq![PropertyId::spec_from_u8(r[0]).unwrap()] + region_ids(
                    r.subrange(n as int, r.len() as int),
                )
            } else {
                Seq::<PropertyId>::empty()
            },
            Err(_) => Seq::<PropertyId>::empty(),
        }
    }
}

pub proof fn lemma_region_ids(ps: Seq<Property>, r: Seq<u8>, k: nat)
    requires
        props_parsed_upto(ps, r, k),
        k == r.len(),
    ensures
        prop_ids(ps) == region_ids(r),
    decreases ps.len(),
{
    if ps.len() == 0 {
        assert(prop_ids(ps) =~= Seq::<PropertyId>::empty());
    } else {
        let n0 = property_result(r)->Ok_0;
        let r1 = r.subrange(n0 as int, r.len() as int);
        lemma_region_ids(ps.drop_first(), r1, (k - n0) as nat);
        assert(prop_ids(ps) =~= seq![ps[0].spec_id()] + prop_ids(ps.drop_first()));
    }
}

fn allowed(set: PropertySet, id: PropertyId) -> (r: bool)
    ensures
        r == spec_allowed(set, id),
{
    match set {
        PropertySet::Connect => match id {
            PropertyId::SessionExpiryInterval | PropertyId::ReceiveMaximum
            | PropertyId::MaximumPacketSize | PropertyId::TopicAliasMaximum
            | PropertyId::RequestResponseInformation | PropertyId::RequestProblemInformation
            | PropertyId::UserProperty | PropertyId::AuthenticationMethod
            | PropertyId::AuthenticationData => true,
            _ => false,
        },
        PropertySet::Will => match id {
            PropertyId::WillDelayInterval | PropertyId::PayloadFormatIndicator
            | PropertyId::MessageExpiryInterval | PropertyId::ContentType
            | PropertyId::ResponseTopic | PropertyId::CorrelationData
            | PropertyId::UserProperty => true,
            _ => false,
        },
        PropertySet::Publish => match id {
            PropertyId::ContentType | PropertyId::CorrelationData
            | PropertyId::MessageExpiryInterval | PropertyId::PayloadFormatIndicator
            | PropertyId::ResponseTopic | PropertyId::SubscriptionIdentifier
            | PropertyId::TopicAlias | PropertyId::UserProperty => true,
            _ => false,
        },
    }
}

fn repeatable(set: PropertySet, id: PropertyId) -> (r: bool)
    ensures
        r == spec_repeatable(set, id),
{
    match set {
        PropertySet::Publish => id == PropertyId::UserProperty || id == PropertyId::SubscriptionIdentifier,
        _ => id == PropertyId::UserProperty,
    }
}

/// Checks a property list against the rules of the given kind:
/// `ProtocolError` when a property is not allowed there or a property that
/// may appear only once is repeated.
pub fn check_property_ids(props: &Properties, set: PropertySet) -> (r: Result<(), MqttError>)
    ensures
        r is Ok <==> ids_ok(prop_ids(props@), set),
        r matches Err(e) ==> e == MqttError::ProtocolError,
{
    let ghost ids = prop_ids(props@);
    let mut i: usize = 0;
    while i < props.len()
        invariant
            i <= props@.len(),
            ids == prop_ids(props@),
            forall|k: int| 0 <= k < i ==> spec_allowed(set, #[trigger] ids[k]),
            forall|a: int, b: int|
                0 <= a < b < i && #[trigger] ids[a] == #[trigger] ids[b] ==> spec_repeatable(set, ids[a]),
        decreases props@.len() - i,
    {
        let id = props[i].id();
        assert(ids[i as int] == id);
        if !allowed(set, id) {
            return Err(MqttError::ProtocolError);
        }
        if !repeatable(set, id) {
            let mut j: usize = 0;
            while j < i
                invariant
                    j <= i,
                    i < props@.len(),
                    ids == prop_ids(props@),
                    ids[i as int] == id,
                    !spec_repeatable(set, id),
                    forall|k: int| 0 <= k < j ==> ids[k] != id,
                decreases i - j,
            {
                if props[j].id() == id {
                    assert(ids[j as int] == id);
                    return Err(MqttError::ProtocolError);
                }
                j = j + 1;
            }
        }
        i = i + 1;
    }
    Ok(())
}

/// Whether the list holds a TopicAlias property.
pub fn has_topic_alias(props: &Properties) -> (r: bool)
    ensures
        r == prop_ids(props@).contains(PropertyId::TopicAlias),
{
    let ghost ids = prop_ids(props@);
    let mut i: usize = 0;
    while i < props.len()
        invariant
            i <= props@.len(),
            ids == prop_ids(props@),
            forall|k: int| 0 <= k < i ==> ids[k] != PropertyId::TopicAlias,
        decreases props@.len() - i,
    {
        if props[i].id() == PropertyId::TopicAlias {
            assert(ids[i as int] == PropertyId::TopicAlias);
            return true;
        }
        i = i + 1;
    }
    false
}

/// The list without its TopicAlias properties, the others in their order.
pub open spec fn props_without_topic_alias(ps: Seq<Property>) -> Seq<Property>
    decreases ps.len(),
{
    if ps.len() == 0 {
        Seq::<Property>::empty()
    } else {
        let r = props_without_topic_alias(ps.drop_last());
        if ps.last().spec_id() == PropertyId::TopicAlias {
            r
        } else {
            r.push(ps.last())
        }
    }
}

/// Value of the first TopicAlias property of the list, if there is one.
pub open spec fn first_topic_alias(ps: Seq<Property>) -> Option<u16>
    decreases ps.len(),
{
    if ps.len() == 0 {
        None
    } else {
        match ps[0] {
            Property::TopicAlias(t) => Some(t.spec_val()),
            _ => first_topic_alias(ps.drop_first()),
        }
    }
}

proof fn lemma_without_topic_alias_step(ps: Seq<Property>, j: int)
    requires
        0 <= j < ps.len(),
    ensures
        props_without_topic_alias(ps.take(j + 1)) == if ps[j].spec_id() == PropertyId::TopicAlias {
            props_without_topic_alias(ps.take(j))
        } else {
            props_without_topic_alias(ps.take(j)).push(ps[j])
        },
{
    assert(ps.take(j + 1).drop_last() =~= ps.take(j));
    assert(ps.take(j + 1).last() == ps[j]);
}

/// Removes every TopicAlias property from the list, keeping the others in
/// their order.
pub fn remove_topic_alias_props(props: &mut Properties)
    ensures
        final(props)@ == props_without_topic_alias(old(props)@),
{
    let ghost orig = props@;
    let ghost mut j: int = 0;
    let mut i: usize = 0;
    assert(orig.take(0) =~= Seq::<Property>::empty());
    assert(props@ =~= props_without_topic_alias(orig.take(0)) + orig.skip(0));
    while i < props.len()
        invariant
            0 <= j <= orig.len(),
            i == props_without_topic_alias(orig.take(j)).len(),
            props@ == props_without_topic_alias(orig.take(j)) + orig.skip(j),
        decreases orig.len() - j,
    {
        proof {
            lemma_without_topic_alias_step(orig, j);
            assert(props@[i as int] == orig[j]);
        }
        if props[i].id() == PropertyId::TopicAlias {
            let _ = props.remove(i);
            proof {
                assert(props@ =~= props_without_topic_alias(orig.take(j + 1)) + orig.skip(j + 1));
            }
        } else {
            proof {
                assert(props@ =~= props_without_topic_alias(orig.take(j + 1)) + orig.skip(j + 1));
            }
            i = i + 1;
        }
        proof { j = j + 1; }
    }
    proof {
        assert(orig.skip(j).len() == 0);
        assert(orig.take(j) =~= orig);
        assert(props@ =~= props_without_topic_alias(orig));
    }
}

proof fn lemma_first_topic_alias_skip(ps: Seq<Property>, i: int)
    requires
        0 <= i < ps.len(),
        forall|k: int| 0 <= k < i ==> ps[k].spec_id() != PropertyId::TopicAlias,
    ensures
        first_topic_alias(ps) == first_topic_alias(ps.skip(i)),
    decreases i,
{
    if i > 0 {
        assert(ps[0].spec_id() != PropertyId::TopicAlias);
        assert(!(ps[0] is TopicAlias));
        assert(ps.drop_first().skip(i - 1) =~= ps.skip(i));
        lemma_first_topic_alias_skip(ps.drop_first(), i - 1);
    } else {
        assert(ps.skip(0) =~= ps);
    }
}

/// Value of the first TopicAlias property of the list, if there is one.
pub fn get_topic_alias_from_props(props: &Properties) -> (r: Option<u16>)
    ensures
        r == first_topic_alias(props@),
{
    let mut i: usize = 0;
    while i < props.len()
        invariant
            i <= props@.len(),
            forall|k: int| 0 <= k < i ==> props@[k].spec_id() != PropertyId::TopicAlias,
        decreases props@.len() - i,
    {
        if let Property::TopicAlias(ta) = &props[i] {
            proof {
                lemma_first_topic_alias_skip(props@, i as int);
                assert(props@.skip(i as int)[0] == props@[i as int]);
            }
            return Some(ta.val());
        }
        i = i + 1;
    }
    proof { lemma_no_topic_alias(props@); }
    None
}

proof fn lemma_no_topic_alias(ps: Seq<Property>)
    requires
        forall|k: int| 0 <= k < ps.len() ==> ps[k].spec_id() != PropertyId::TopicAlias,
    ensures
        first_topic_alias(ps) is None,
    decreases ps.len(),
{
    if ps.len() > 0 {
        assert(ps[0].spec_id() != PropertyId::TopicAlias);
        assert(forall|k: int| 0 <= k < ps.drop_first().len() ==> ps.drop_first()[k] == ps[k + 1]);
        lemma_no_topic_alias(ps.drop_first());
    }
}

} // verus!
