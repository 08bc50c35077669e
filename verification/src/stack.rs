//! The stack of effects that are switched on at one point of a text.
use vstd::prelude::*;
use crate::effect::StyleEffect;

verus! {

/// No effect stands twice in a row.
pub open spec fn no_repeats(effects: Seq<StyleEffect>) -> bool {
    forall|i: int| #![trigger effects[i]] 0 <= i && i + 1 < effects.len() ==> effects[i] != effects[i + 1]
}

/// The stack after pushing `effect`: unchanged when color is disabled or when
/// `effect` already lies on top.
pub open spec fn pushed(effects: Seq<StyleEffect>, effect: StyleEffect, no_color: bool) -> Seq<
    StyleEffect,
> {
    if no_color || (effects.len() > 0 && effects.last() == effect) {
        effects
    } else {
        effects.push(effect)
    }
}

/// The stack after pushing each of `more` in order.
pub open spec fn extended(effects: Seq<StyleEffect>, more: Seq<StyleEffect>, no_color: bool) -> Seq<
    StyleEffect,
>
    decreases more.len(),
{
    if more.len() == 0 {
        effects
    } else {
        pushed(extended(effects, more.drop_last(), no_color), more.last(), no_color)
    }
}

/// The escape sequences of the effects, bottom first, one after the other.
pub open spec fn escape_sequence(effects: Seq<StyleEffect>) -> Seq<u8>
    decreases effects.len(),
{
    if effects.len() == 0 {
        Seq::empty()
    } else {
        escape_sequence(effects.drop_last()) + effects.last().escape_spec()
    }
}

/// The index of the topmost `effect` in the stack, if it holds one.
pub open spec fn topmost(effects: Seq<StyleEffect>, effect: StyleEffect) -> Option<int>
    decreases effects.len(),
{
    if effects.len() == 0 {
        None
    } else if effects.last() == effect {
        Some(effects.len() - 1)
    } else {
        topmost(effects.drop_last(), effect)
    }
}

/// `topmost` gives the greatest index that holds `effect`, and `None` exactly
/// when the stack does not hold it.
pub proof fn lemma_topmost(effects: Seq<StyleEffect>, effect: StyleEffect)
    ensures
        match topmost(effects, effect) {
            Some(i) => {
                &&& 0 <= i < effects.len()
                &&& effects[i] == effect
                &&& forall|j: int| i < j < effects.len() ==> effects[j] != effect
            },
            None => forall|j: int| 0 <= j < effects.len() ==> effects[j] != effect,
        },
    decreases effects.len(),
{
    if effects.len() > 0 && effects.last() != effect {
        let below = effects.drop_last();
        lemma_topmost(below, effect);
        assert forall|j: int| 0 <= j < below.len() implies below[j] == effects[j] by {}
        match topmost(below, effect) {
            Some(i) => {
                assert forall|j: int| i < j < effects.len() implies effects[j] != effect by {
                    if j < below.len() {
                        assert(below[j] != effect);
                    }
                }
            },
            None => {
                assert forall|j: int| 0 <= j < effects.len() implies effects[j] != effect by {
                    if j < below.len() {
                        assert(below[j] != effect);
                    }
                }
            },
        }
    }
}

/// An ordered stack of effects in which no effect stands twice in a row.
#[derive(Debug)]
pub struct EffectStack {
    effects: Vec<StyleEffect>,
}

impl View for EffectStack {
    type V = Seq<StyleEffect>;

    closed spec fn view(&self) -> Seq<StyleEffect> {
        self.effects@
    }
}

impl Clone for EffectStack {
    fn clone(&self) -> (copy: Self)
        ensures
            copy@ == self@,
    {
        proof {
            use_type_invariant(self);
        }
        let mut effects: Vec<StyleEffect> = Vec::with_capacity(self.effects.len());
        let mut i: usize = 0;
        while i < self.effects.len()
            invariant
                i <= self.effects.len(),
                effects@ == self.effects@.subrange(0, i as int),
            decreases self.effects.len() - i,
        {
            effects.push(self.effects[i]);
            i += 1;
            assert(effects@ =~= self.effects@.subrange(0, i as int));
        }
        assert(effects@ =~= self.effects@);
        EffectStack { effects }
    }
}

impl Default for EffectStack {
    fn default() -> (stack: Self)
        ensures
            stack@ == Seq::<StyleEffect>::empty(),
    {
        EffectStack::new()
    }
}

impl EffectStack {
    #[verifier::type_invariant]
    spec fn well_formed(self) -> bool {
        no_repeats(self.effects@)
    }

    /// An empty stack.
    pub fn new() -> (stack: Self)
        ensures
            stack@ == Seq::<StyleEffect>::empty(),
    {
        EffectStack { effects: Vec::new() }
    }

    /// The stack that pushing each of `effects` in turn onto an empty stack
    /// gives.
    pub fn from_effects(effects: &[StyleEffect], no_color: bool) -> (stack: Self)
        ensures
            stack@ == extended(Seq::empty(), effects@, no_color),
    {
        let mut stack = EffectStack::new();
        stack.extend(effects, no_color);
        stack
    }

    /// The number of effects on the stack.
    pub fn len(&self) -> (n: usize)
        ensures
            n == self@.len(),
    {
        self.effects.len()
    }

    /// Whether the stack holds no effect.
    pub fn is_empty(&self) -> (empty: bool)
        ensures
            empty == (self@.len() == 0),
    {
        self.effects.len() == 0
    }

    /// The effects, bottom first. No two neighbours are equal.
    pub fn effects(&self) -> (effects: &Vec<StyleEffect>)
        ensures
            effects@ == self@,
            no_repeats(self@),
    {
        proof {
            use_type_invariant(self);
        }
        &self.effects
    }

    /// The effect on top.
    pub fn last(&self) -> (top: Option<StyleEffect>)
        ensures
            top == (if self@.len() == 0 {
                None
            } else {
                Some(self@.last())
            }),
    {
        if self.effects.len() == 0 {
            None
        } else {
            Some(self.effects[self.effects.len() - 1])
        }
    }

    /// Puts `effect` on top. Nothing happens when color is disabled, or when
    /// `effect` is already the top of the stack.
    pub fn push(&mut self, effect: StyleEffect, no_color: bool)
        ensures
            final(self)@ == pushed(old(self)@, effect, no_color),
    {
        proof {
            use_type_invariant(&*self);
        }
        if no_color {
            return ;
        }
        let n = self.effects.len();
        if n > 0 && self.effects[n - 1] == effect {
            return ;
        }
        let mut effects: Vec<StyleEffect> = Vec::new();
        std::mem::swap(&mut self.effects, &mut effects);
        effects.push(effect);
        std::mem::swap(&mut self.effects, &mut effects);
    }

    /// Pushes each of `more`, in order.
    pub fn extend(&mut self, more: &[StyleEffect], no_color: bool)
        ensures
            final(self)@ == extended(old(self)@, more@, no_color),
    {
        let mut i: usize = 0;
        assert(more@.subrange(0, 0) =~= Seq::<StyleEffect>::empty());
        while i < more.len()
            invariant
                i <= more.len(),
                self@ == extended(old(self)@, more@.subrange(0, i as int), no_color),
            decreases more.len() - i,
        {
            self.push(more[i], no_color);
            i += 1;
            assert(more@.subrange(0, i as int).drop_last() =~= more@.subrange(0, i - 1));
        }
        assert(more@.subrange(0, i as int) =~= more@);
    }

    /// Removes every effect.
    pub fn clear(&mut self)
        ensures
            final(self)@ == Seq::<StyleEffect>::empty(),
    {
        let mut effects: Vec<StyleEffect> = Vec::new();
        std::mem::swap(&mut self.effects, &mut effects);
    }

    /// Keeps the lowest `len` effects and drops the rest; nothing happens when
    /// the stack holds no more than `len`.
    pub fn truncate(&mut self, len: usize)
        ensures
            final(self)@ == (if len <= old(self)@.len() {
                old(self)@.take(len as int)
            } else {
                old(self)@
            }),
    {
        proof {
            use_type_invariant(&*self);
        }
        let mut effects: Vec<StyleEffect> = Vec::new();
        std::mem::swap(&mut self.effects, &mut effects);
        effects.truncate(len);
        std::mem::swap(&mut self.effects, &mut effects);
    }

    /// The index of the topmost `effect`.
    pub fn position_of(&self, effect: StyleEffect) -> (position: Option<usize>)
        ensures
            match position {
                Some(i) => topmost(self@, effect) == Some(i as int),
                None => topmost(self@, effect).is_none(),
            },
    {
        let mut i: usize = self.effects.len();
        assert(self.effects@.take(i as int) =~= self.effects@);
        while i > 0
            invariant
                i <= self.effects.len(),
                topmost(self.effects@, effect) == topmost(self.effects@.take(i as int), effect),
            decreases i,
        {
            if self.effects[i - 1] == effect {
                return Some(i - 1);
            }
            assert(self.effects@.take(i as int).drop_last() =~= self.effects@.take(i - 1));
            i -= 1;
        }
        None
    }

    /// The escape sequences of the effects, bottom first, one after the
    /// other.
    pub fn to_escape_sequence(&self) -> (bytes: Vec<u8>)
        ensures
            bytes@ == escape_sequence(self@),
    {
        let mut bytes: Vec<u8> = Vec::new();
        self.write_escape_sequence(&mut bytes);
        bytes
    }

    /// Appends the escape sequences of the effects to `out`.
    pub fn write_escape_sequence(&self, out: &mut Vec<u8>)
        ensures
            final(out)@ == old(out)@ + escape_sequence(self@),
    {
        let mut i: usize = 0;
        assert(self.effects@.take(0) =~= Seq::<StyleEffect>::empty());
        while i < self.effects.len()
            invariant
                i <= self.effects.len(),
                out@ == old(out)@ + escape_sequence(self.effects@.take(i as int)),
            decreases self.effects.len() - i,
        {
            crate::effect::push_escape(out, self.effects[i].code());
            i += 1;
            assert(self.effects@.take(i as int).drop_last() =~= self.effects@.take(i - 1));
            assert(out@ =~= old(out)@ + escape_sequence(self.effects@.take(i as int)));
        }
        assert(self.effects@.take(i as int) =~= self.effects@);
    }
}

} // verus!
