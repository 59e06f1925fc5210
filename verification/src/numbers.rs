//! The decimal forms of the numbers that a report shows. Whoever renders a
//! report records them; the renderers look them up by value and style.
use crate::double::DoubleBits;
use vstd::prelude::*;

verus! {

/// How a number is written.
#[derive(Clone, Copy, Debug, PartialEq, Eq, Structural)]
pub enum NumberStyle {
    /// A fixed number of decimals.
    Fixed { places: u8 },
    /// A fixed number of decimals, with a sign in any case.
    Signed { places: u8 },
    /// One hundred times the number, with two decimals.
    Hundredfold,
    /// Scientific notation with three decimals.
    Scientific,
    /// Rounded to the nearest integer.
    Whole,
    /// Divided by the divisor of its rate scale, with two decimals.
    Rate,
}

/// A number, a style, and the number written in that style.
#[derive(Debug)]
pub struct NumberText {
    pub value: DoubleBits,
    pub style: NumberStyle,
    pub text: String,
}

/// The text last recorded for a number and a style; a question mark where
/// none was.
pub open spec fn recorded(list: Seq<NumberText>, value: DoubleBits, style: NumberStyle) -> Seq<char>
    decreases list.len(),
{
    if list.len() == 0 {
        "?"@
    } else if list.last().value == value && list.last().style == style {
        list.last().text@
    } else {
        recorded(list.drop_last(), value, style)
    }
}

/// Numbers and how they are written.
#[derive(Debug)]
pub struct NumberTexts {
    pub list: Vec<NumberText>,
}

impl NumberTexts {
    pub open spec fn spec_text(&self, value: DoubleBits, style: NumberStyle) -> Seq<char> {
        recorded(self.list@, value, style)
    }

    pub fn new() -> (r: NumberTexts)
        ensures
            r.list@.len() == 0,
    {
        NumberTexts { list: Vec::new() }
    }

    /// Records how a number is written in a style.
    pub fn record(&mut self, value: DoubleBits, style: NumberStyle, text: String)
        ensures
            final(self).list@ == old(self).list@.push(NumberText { value, style, text }),
            final(self).spec_text(value, style) == text@,
            forall|v: DoubleBits, s: NumberStyle|
                v != value || s != style ==> #[trigger] final(self).spec_text(v, s) == old(
                    self,
                ).spec_text(v, s),
    {
        self.list.push(NumberText { value, style, text });
        assert(self.list@.drop_last() =~= old(self).list@);
    }

    /// How a number is written in a style.
    pub fn text(&self, value: DoubleBits, style: NumberStyle) -> (r: String)
        ensures
            r@ == self.spec_text(value, style),
    {
        let mut count: usize = self.list.len();
        assert(self.list@.take(count as int) =~= self.list@);
        while count > 0
            invariant
                count <= self.list.len(),
                self.spec_text(value, style) == recorded(
                    self.list@.take(count as int),
                    value,
                    style,
                ),
            decreases count,
        {
            let entry = &self.list[count - 1];
            assert(self.list@.take(count as int).last() == self.list@[count - 1]);
            assert(self.list@.take(count as int).drop_last() =~= self.list@.take(count - 1));
            if entry.value == value && entry.style == style {
                return entry.text.clone();
            }
            count -= 1;
        }
        "?".to_owned()
    }
}

} // verus!
