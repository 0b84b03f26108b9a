//! The code modules loaded in the crashed process.
use vstd::prelude::*;

verus! {

/// A loaded code image covering `size` bytes from `base_address`.
#[derive(Debug, Clone)]
pub struct MinidumpModule {
    pub base_address: u64,
    pub size: u64,
    pub name: String,
}

impl MinidumpModule {
    /// Whether the module's address range holds `addr`.
    pub open spec fn covers(&self, addr: u64) -> bool {
        self.base_address <= addr < self.base_address + self.size
    }

    pub fn new(base_address: u64, size: u64, name: String) -> (r: Self)
        ensures
            r.base_address == base_address,
            r.size == size,
            r.name@ == name@,
    {
        MinidumpModule { base_address, size, name }
    }

    /// The module's file identifier.
    pub fn code_file(&self) -> (r: &str)
        ensures
            r@ == self.name@,
    {
        self.name.as_str()
    }

    fn contains(&self, addr: u64) -> (r: bool)
        ensures
            r == self.covers(addr),
    {
        addr >= self.base_address && addr - self.base_address < self.size
    }
}

/// The loaded modules; a lookup yields the first one that covers an address.
#[derive(Debug, Clone)]
pub struct MinidumpModuleList {
    pub modules: Vec<MinidumpModule>,
}

/// Whether `i` is the position of the first module in `mods` that covers `addr`.
pub open spec fn is_first_covering(mods: Seq<MinidumpModule>, addr: u64, i: int) -> bool {
    &&& 0 <= i < mods.len()
    &&& mods[i].covers(addr)
    &&& forall|j: int| 0 <= j < i ==> !mods[j].covers(addr)
}

impl MinidumpModuleList {
    /// Whether some module covers `addr`.
    pub open spec fn any_covers(&self, addr: u64) -> bool {
        exists|i: int| 0 <= i < self.modules@.len() && self.modules@[i].covers(addr)
    }

    /// The first module covering `addr`, if any.
    pub open spec fn module_at(&self, addr: u64) -> Option<MinidumpModule> {
        if exists|i: int| is_first_covering(self.modules@, addr, i) {
            let i = choose|i: int| is_first_covering(self.modules@, addr, i);
            Some(self.modules@[i])
        } else {
            None
        }
    }

    /// The file identifier of the first module covering `addr`; empty if none does.
    pub open spec fn name_at(&self, addr: u64) -> Seq<char> {
        match self.module_at(addr) {
            Some(m) => m.name@,
            None => Seq::empty(),
        }
    }

    pub fn new(modules: Vec<MinidumpModule>) -> (r: Self)
        ensures
            r.modules@ == modules@,
    {
        MinidumpModuleList { modules }
    }

    /// The first module whose address range covers `addr`.
    pub fn module_at_address(&self, addr: u64) -> (r: Option<&MinidumpModule>)
        ensures
            r is Some <==> self.any_covers(addr),
            r matches Some(m) ==> self.module_at(addr) == Some(*m),
            r is None ==> self.module_at(addr) is None,
    {
        let mut i: usize = 0;
        while i < self.modules.len()
            invariant
                i <= self.modules@.len(),
                forall|j: int| 0 <= j < i ==> !self.modules@[j].covers(addr),
            decreases self.modules@.len() - i,
        {
            if self.modules[i].contains(addr) {
                assert(is_first_covering(self.modules@, addr, i as int));
                return Some(&self.modules[i]);
            }
            i += 1;
        }
        None
    }
}

} // verus!
