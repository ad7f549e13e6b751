//! Entity and component references, identified by 64-bit ids.
use vstd::prelude::*;
use vstd::std_specs::cmp::PartialEqSpec;

verus! {

/// A 64-bit identifier of an entity, a component or a component type.
#[derive(Debug, Clone, Copy, PartialEq, Eq, Structural)]
pub struct Id {
    pub raw: u64,
}

impl Id {
    /// Wraps a raw id.
    pub fn new(raw: u64) -> (r: Self)
        ensures
            r.raw == raw,
    {
        Self { raw }
    }
}

impl Default for Id {
    /// The id 0.
    fn default() -> (r: Self)
        ensures
            r.raw == 0,
    {
        Self { raw: 0 }
    }
}

impl From<u64> for Id {
    fn from(raw: u64) -> (r: Self) {
        Id { raw }
    }
}

impl vstd::std_specs::convert::FromSpecImpl<u64> for Id {
    open spec fn obeys_from_spec() -> bool {
        true
    }

    open spec fn from_spec(raw: u64) -> Self {
        Id { raw }
    }
}

impl From<Id> for u64 {
    fn from(id: Id) -> (r: Self) {
        id.raw
    }
}

impl vstd::std_specs::convert::FromSpecImpl<Id> for u64 {
    open spec fn obeys_from_spec() -> bool {
        true
    }

    open spec fn from_spec(id: Id) -> Self {
        id.raw
    }
}

/// The model of a component reference: its id, its parent's id and its
/// type's id, as raw integers.
pub type ComponentModel = (u64, u64, u64);

/// A reference to a component: the component's id, the id of the entity that
/// owns it and the id of its type.
#[derive(Debug)]
pub struct ComponentRef {
    id: Id,
    parent: Id,
    type_id: Id,
}

impl View for ComponentRef {
    type V = ComponentModel;

    closed spec fn view(&self) -> ComponentModel {
        (self.id.raw, self.parent.raw, self.type_id.raw)
    }
}

impl ComponentRef {
    /// A reference to component `id` of entity `parent`, of type `type_id`.
    pub fn new(id: Id, parent: Id, type_id: Id) -> (r: Self)
        ensures
            r@ == (id.raw, parent.raw, type_id.raw),
    {
        Self { id, parent, type_id }
    }

    /// The component's own id.
    pub fn component_id(&self) -> (r: Id)
        ensures
            r.raw == self@.0,
    {
        self.id
    }

    /// The id of the entity that owns the component.
    pub fn parent(&self) -> (r: Id)
        ensures
            r.raw == self@.1,
    {
        self.parent
    }

    /// The id of the component's type.
    pub fn type_id(&self) -> (r: Id)
        ensures
            r.raw == self@.2,
    {
        self.type_id
    }
}

impl Clone for ComponentRef {
    fn clone(&self) -> (r: Self)
        ensures
            r@ == self@,
    {
        ComponentRef { id: self.id, parent: self.parent, type_id: self.type_id }
    }
}

impl Default for ComponentRef {
    /// All three ids 0.
    fn default() -> (r: Self)
        ensures
            r@ == (0u64, 0u64, 0u64),
    {
        ComponentRef { id: Id { raw: 0 }, parent: Id { raw: 0 }, type_id: Id { raw: 0 } }
    }
}

/// The models of a sequence of component references.
pub open spec fn component_models(cs: Seq<ComponentRef>) -> Seq<ComponentModel> {
    cs.map_values(|c: ComponentRef| c@)
}

/// The model of an entity reference: its raw id and its components' models.
pub type EntityModel = (u64, Seq<ComponentModel>);

/// A reference to an entity: its id and the components it holds.
#[derive(Debug)]
pub struct EntityRef {
    id: Id,
    components: Vec<ComponentRef>,
}

impl View for EntityRef {
    type V = EntityModel;

    closed spec fn view(&self) -> EntityModel {
        (self.id.raw, component_models(self.components@))
    }
}

impl PartialEq for EntityRef {
    /// Two entity references are equal when their ids are; their components
    /// are not compared.
    fn eq(&self, rhv: &EntityRef) -> (r: bool) {
        self.id.raw == rhv.id.raw
    }
}

impl vstd::std_specs::cmp::PartialEqSpecImpl for EntityRef {
    open spec fn obeys_eq_spec() -> bool {
        true
    }

    open spec fn eq_spec(&self, rhv: &EntityRef) -> bool {
        self@.0 == rhv@.0
    }
}

impl Clone for EntityRef {
    fn clone(&self) -> (r: Self)
        ensures
            r@ == self@,
    {
        let mut components: Vec<ComponentRef> = Vec::new();
        let n = self.components.len();
        for i in 0..n
            invariant
                n == self.components@.len(),
                components@.len() == i,
                forall|j: int| 0 <= j < i ==> #[trigger] components@[j]@ == self.components@[j]@,
        {
            components.push(self.components[i].clone());
        }
        let r = EntityRef { id: self.id, components };
        assert(component_models(r.components@) =~= component_models(self.components@));
        r
    }
}

impl Default for EntityRef {
    /// The entity with id 0 and no components.
    fn default() -> (r: Self)
        ensures
            r@ == (0u64, Seq::<ComponentModel>::empty()),
    {
        let r = EntityRef { id: Id { raw: 0 }, components: Vec::new() };
        assert(component_models(r.components@) =~= Seq::<ComponentModel>::empty());
        r
    }
}

impl EntityRef {
    /// An entity with the given id and no components.
    pub fn new(id: Id) -> (r: Self)
        ensures
            r@ == (id.raw, Seq::<ComponentModel>::empty()),
    {
        let r = Self { id, components: Vec::new() };
        assert(component_models(r.components@) =~= Seq::<ComponentModel>::empty());
        r
    }

    /// An entity with the given id and components, in the given order.
    pub fn with_components(id: Id, components: Vec<ComponentRef>) -> (r: Self)
        ensures
            r@ == (id.raw, component_models(components@)),
    {
        Self { id, components }
    }

    /// The entity's id.
    pub fn id(&self) -> (r: Id)
        ensures
            r.raw == self@.0,
    {
        self.id
    }

    /// The entity's components, in order.
    pub fn components(&self) -> (r: &[ComponentRef])
        ensures
            component_models(r@) == self@.1,
    {
        self.components.as_slice()
    }

    /// The entity's components, in order, for changing in place; the id
    /// stays and the components become what the caller leaves in the slice.
    pub fn components_mut(&mut self) -> (r: &mut [ComponentRef])
        ensures
            component_models(r@) == old(self)@.1,
            final(self)@ == (old(self)@.0, component_models(final(r)@)),
    {
        self.components.as_mut_slice()
    }

    /// The entity's component vector, for changing in place (also its
    /// length); the id stays.
    pub fn components_mut_vec(&mut self) -> (r: &mut Vec<ComponentRef>)
        ensures
            component_models(r@) == old(self)@.1,
            final(self)@ == (old(self)@.0, component_models(final(r)@)),
    {
        &mut self.components
    }
}

/// Converting a raw id to an `Id` and back gives the raw id, and converting an
/// `Id` to its raw form and back gives the `Id`.
pub proof fn lemma_id_conversions_inverse(raw: u64, id: Id)
    ensures
        <u64 as vstd::std_specs::convert::FromSpec<Id>>::from_spec(
            <Id as vstd::std_specs::convert::FromSpec<u64>>::from_spec(raw),
        ) == raw,
        <Id as vstd::std_specs::convert::FromSpec<u64>>::from_spec(
            <u64 as vstd::std_specs::convert::FromSpec<Id>>::from_spec(id),
        ) == id,
{
}

/// Entity references are equal exactly when their ids are, whatever their
/// components; this equality is reflexive, symmetric and transitive.
pub proof fn lemma_entity_eq_is_id_eq(a: EntityRef, b: EntityRef, c: EntityRef)
    ensures
        a.eq_spec(&b) <==> a@.0 == b@.0,
        a.eq_spec(&a),
        a.eq_spec(&b) ==> b.eq_spec(&a),
        a.eq_spec(&b) && b.eq_spec(&c) ==> a.eq_spec(&c),
{
}

} // verus!
