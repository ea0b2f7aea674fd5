//! Type conversions and newtypes: field-for-field reinterpretation, a
//! distance newtype with checked addition, and a displayable list wrapper.

use crate::grep::views_of;
use crate::strutil::push_char;
use vstd::prelude::*;

verus! {

pub struct Foo {
    pub x: u32,
    pub y: u16,
}

#[derive(Debug)]
pub struct Bar {
    pub a: u32,
    pub b: u16,
}

/// Moves `Foo`'s fields into a `Bar`, nothing more.
pub fn reinterpret(foo: Foo) -> (r: Bar)
    ensures
        r.a == foo.x,
        r.b == foo.y,
{
    let Foo { x, y } = foo;
    Bar { a: x, b: y }
}

/// A distance in meters.
pub struct Meters(pub u32);

/// The sum of two distances; the total must stay in range.
pub fn calculate_distance(d1: Meters, d2: Meters) -> (r: Meters)
    requires
        d1.0 + d2.0 <= u32::MAX,
    ensures
        r.0 == d1.0 + d2.0,
{
    Meters(d1.0 + d2.0)
}

/// The pieces joined with commas between them.
pub open spec fn joined(v: Seq<Seq<char>>) -> Seq<char>
    decreases v.len(),
{
    if v.len() == 0 {
        Seq::empty()
    } else if v.len() == 1 {
        v[0]
    } else {
        v[0] + seq![','] + joined(v.drop_first())
    }
}

proof fn lemma_joined_push(v: Seq<Seq<char>>, x: Seq<char>)
    ensures
        v.len() == 0 ==> joined(v.push(x)) == x,
        v.len() > 0 ==> joined(v.push(x)) == joined(v) + seq![','] + x,
    decreases v.len(),
{
    if v.len() == 0 {
        assert(joined(v.push(x)) == v.push(x)[0]);
        assert(v.push(x)[0] == x);
    } else {
        lemma_joined_push(v.drop_first(), x);
        assert(v.push(x).drop_first() =~= v.drop_first().push(x));
        assert(v.push(x)[0] == v[0]);
        assert(v.push(x).len() == v.len() + 1);
        if v.len() == 1 {
            assert(joined(v.push(x)) == v[0] + seq![','] + joined(v.drop_first().push(x)));
            assert(joined(v) == v[0]);
            assert(joined(v.drop_first().push(x)) == x);
        } else {
            assert(joined(v.push(x)) == v[0] + seq![','] + joined(v.drop_first().push(x)));
            assert(joined(v.drop_first().push(x)) == joined(v.drop_first()) + seq![','] + x);
            assert(v[0] + seq![','] + (joined(v.drop_first()) + seq![','] + x) =~= (v[0] + seq![
                ',',
            ] + joined(v.drop_first())) + seq![','] + x);
        }
    }
}

/// A newtype around a list of strings that can render itself.
pub struct Wrapper(pub Vec<String>);

impl Wrapper {
    /// The wrapper rendered as text: the entries joined with commas, in
    /// brackets.
    pub fn fmt_string(&self) -> (r: String)
        ensures
            r@ == seq!['['] + joined(views_of(self.0@)) + seq![']'],
    {
        let mut r = String::new();
        push_char(&mut r, '[');
        let mut k: usize = 0;
        while k < self.0.len()
            invariant
                k <= self.0@.len(),
                r@ == seq!['['] + joined(views_of(self.0@).take(k as int)),
            decreases self.0@.len() - k,
        {
            let ghost prev = r@;
            if k > 0 {
                push_char(&mut r, ',');
            }
            r.append(self.0[k].as_str());
            proof {
                let vs = views_of(self.0@);
                lemma_joined_push(vs.take(k as int), vs[k as int]);
                assert(vs.take(k + 1).drop_last() =~= vs.take(k as int));
                assert(vs.take(k as int).push(vs[k as int]) =~= vs.take(k + 1));
                let piece = vs[k as int];
                if k == 0 {
                    assert(r@ =~= seq!['['] + joined(vs.take(k + 1)));
                } else {
                    assert(r@ =~= seq!['['] + (joined(vs.take(k as int)) + seq![','] + piece));
                    assert(r@ =~= seq!['['] + joined(vs.take(k + 1)));
                }
            }
            k = k + 1;
        }
        proof {
            assert(views_of(self.0@).take(self.0@.len() as int) =~= views_of(self.0@));
        }
        push_char(&mut r, ']');
        r
    }
}

} // verus!
