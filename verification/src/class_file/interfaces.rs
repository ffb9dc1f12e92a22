use vstd::prelude::*;
use vstd::string::*;

use crate::class_file::constant_pool::{
    index_item, resolve, valid_index, valid_indices, pool_wf, ConstantPool, InfoView,
};
use crate::class_file::error::DecodeError;
use crate::class_file::file_reader::{decoded, mapped, parse_counted, parse_each, FileReader, Parsed};
use crate::class_file::text::concat_each;

verus! {

/// The interfaces that a class implements: the indices of their classes.
#[derive(Debug)]
pub struct Interfaces {
    pub interfaces: Vec<u16>,
}

/// The model of [`Interfaces`].
pub ghost struct InterfacesView {
    pub interfaces: Seq<u16>,
}

impl View for Interfaces {
    type V = InterfacesView;

    open spec fn view(&self) -> InterfacesView {
        InterfacesView { interfaces: self.interfaces@ }
    }
}

impl InterfacesView {
    /// Whether every index that this holds names an entry of the pool.
    pub open spec fn wf(self, pool: Seq<InfoView>) -> bool {
        valid_indices(pool, self.interfaces)
    }

    /// A count, then that many indices of classes.
    pub open spec fn parse(bytes: Seq<u8>, pos: int, pool: Seq<InfoView>) -> Parsed<InterfacesView> {
        mapped(
            parse_counted(index_item(pool), bytes, pos),
            |interfaces: Seq<u16>| InterfacesView { interfaces },
        )
    }

    /// The line of a listing for one interface.
    pub open spec fn line(pool: Seq<InfoView>) -> spec_fn(u16) -> Seq<char> {
        |index: u16| "- "@ + resolve(pool, index as int) + "\n"@
    }

    /// The text that `to_string` gives.
    pub open spec fn text(self, pool: Seq<InfoView>) -> Seq<char> {
        concat_each("Interfaces:\n"@, self.interfaces, 0, Self::line(pool))
    }
}

impl Interfaces {
    /// Reads them: a count, then that many.
    #[verifier::loop_isolation(false)]
    pub fn from(file: &mut FileReader, cp: &ConstantPool) -> (r: Result<Interfaces, DecodeError>)
        ensures
            decoded(
                *old(file),
                *final(file),
                r,
                InterfacesView::parse(old(file).bytes(), old(file).pos(), cp@),
            ),
            r is Ok ==> r->Ok_0@.wf(cp@),
    {
        let mut interfaces: Vec<u16> = Vec::new();
        let interfaces_count = file.read_u2_to_u16()?;
        let mut i: u16 = 0;
        while i < interfaces_count
            invariant
                i <= interfaces_count,
                file.bytes() == old(file).bytes(),
                old(file).pos() <= file.pos() <= file.bytes().len(),
                parse_each(
                    index_item(cp@),
                    file.bytes(),
                    file.pos(),
                    (interfaces_count - i) as nat,
                    interfaces@,
                ) == parse_each(
                    index_item(cp@),
                    old(file).bytes(),
                    old(file).pos() + 2,
                    interfaces_count as nat,
                    Seq::empty(),
                ),
                valid_indices(cp@, interfaces@),
            decreases interfaces_count - i,
        {
            let index = cp.read_index(file)?;
            interfaces.push(index);
            i += 1;
        }
        Ok(Interfaces { interfaces })
    }

    /// The text of this, as a dump shows it.
    #[verifier::loop_isolation(false)]
    pub fn to_string(&self, constant_pool: &ConstantPool) -> (r: String)
        requires
            pool_wf(constant_pool@),
            self@.wf(constant_pool@),
        ensures
            r@ == self@.text(constant_pool@),
    {
        let mut s = String::from_str("Interfaces:\n");
        let mut i: usize = 0;
        while i < self.interfaces.len()
            invariant
                i <= self.interfaces.len(),
                concat_each(s@, self.interfaces@, i as int, InterfacesView::line(constant_pool@))
                    == self@.text(constant_pool@),
            decreases self.interfaces.len() - i,
        {
            assert(valid_index(constant_pool@, self.interfaces@[i as int] as int));
            let mut line = String::from_str("- ");
            line.append(constant_pool.get_to_string(self.interfaces[i]).as_str());
            line.append("\n");
            s.append(line.as_str());
            i += 1;
        }
        s
    }
}

} // verus!
