use vstd::prelude::*;

use crate::commands::Command;
use crate::matrix::Mat4;

verus! {

/// Why a shader program refused a request.
#[derive(Clone, Debug, PartialEq, Eq)]
pub enum ShaderError {
    /// The program has no active uniform of this name.
    UniformLocationNotFound { name: String },
}

/// An active uniform of a linked program.
#[derive(Clone, Debug, PartialEq, Eq)]
pub struct Uniform {
    pub name: String,
    pub location: i32,
}

/// A linked shader program: its handle and its active uniforms.
#[derive(Clone, Debug, PartialEq, Eq)]
pub struct Program {
    pub id: u32,
    pub uniforms: Vec<Uniform>,
}

/// The location under which `name` is first listed, or -1 where it is not
/// listed.
pub open spec fn location_of(uniforms: Seq<Uniform>, name: Seq<char>) -> i32
    decreases uniforms.len(),
{
    if uniforms.len() == 0 {
        -1i32
    } else if uniforms.first().name@ == name {
        uniforms.first().location
    } else {
        location_of(uniforms.drop_first(), name)
    }
}

impl Program {
    /// The location of the uniform `name`, negative where the program has
    /// none.
    pub open spec fn location(&self, name: Seq<char>) -> i32 {
        location_of(self.uniforms@, name)
    }

    /// What setting a uniform gives: the command made for the location of
    /// `name`, or the error that names the missing uniform.
    pub open spec fn uniform_set(
        &self,
        name: Seq<char>,
        command: Command,
        r: Result<Command, ShaderError>,
    ) -> bool {
        match r {
            Ok(c) => self.location(name) >= 0 && c == command,
            Err(e) => {
                &&& self.location(name) < 0
                &&& e matches ShaderError::UniformLocationNotFound { name: n }
                &&& n@ == name
            },
        }
    }

    /// The command that makes this program the active one.
    pub fn set_used(&self) -> (r: Command)
        ensures
            r == (Command::UseProgram { program: self.id }),
    {
        Command::UseProgram { program: self.id }
    }

    /// Looks up the location of a uniform by its name.
    pub fn get_uniform_location(&self, name: &str) -> (r: Result<i32, ShaderError>)
        ensures
            match r {
                Ok(location) => location >= 0 && location == self.location(name@),
                Err(e) => {
                    &&& self.location(name@) < 0
                    &&& e matches ShaderError::UniformLocationNotFound { name: n }
                    &&& n@ == name@
                },
            },
    {
        let key = name.to_owned();
        let mut location: i32 = -1;
        let mut i: usize = 0;
        assert(self.uniforms@.skip(0) == self.uniforms@);
        while i < self.uniforms.len()
            invariant_except_break
                i <= self.uniforms.len(),
                location == -1,
                location_of(self.uniforms@, name@) == location_of(self.uniforms@.skip(i as int), name@),
            invariant
                key@ == name@,
            ensures
                location == self.location(name@),
            decreases self.uniforms.len() - i,
        {
            assert(self.uniforms@.skip(i as int).drop_first() == self.uniforms@.skip(i + 1));
            if self.uniforms[i].name == key {
                location = self.uniforms[i].location;
                break;
            }
            i += 1;
        }
        if location < 0 {
            return Err(ShaderError::UniformLocationNotFound { name: key });
        }
        Ok(location)
    }

    /// Assigns a sampler uniform to a texture unit.
    pub fn set_texture_unit(&self, name: &str, unit: i32) -> (r: Result<Command, ShaderError>)
        ensures
            self.uniform_set(
                name@,
                Command::Uniform1i { location: self.location(name@), value: unit },
                r,
            ),
    {
        match self.get_uniform_location(name) {
            Ok(location) => Ok(Command::Uniform1i { location, value: unit }),
            Err(e) => Err(e),
        }
    }

    /// Sets a three-component vector uniform.
    pub fn set_vec3(&self, name: &str, vec: &[u32; 3]) -> (r: Result<Command, ShaderError>)
        ensures
            self.uniform_set(
                name@,
                Command::Uniform3fv { location: self.location(name@), vector: *vec },
                r,
            ),
    {
        match self.get_uniform_location(name) {
            Ok(location) => Ok(Command::Uniform3fv { location, vector: *vec }),
            Err(e) => Err(e),
        }
    }

    /// Sets a 4x4 matrix uniform.
    pub fn set_mat4(&self, name: &str, mat: &Mat4) -> (r: Result<Command, ShaderError>)
        ensures
            self.uniform_set(
                name@,
                Command::UniformMatrix4fv { location: self.location(name@), matrix: *mat },
                r,
            ),
    {
        match self.get_uniform_location(name) {
            Ok(location) => Ok(Command::UniformMatrix4fv { location, matrix: *mat }),
            Err(e) => Err(e),
        }
    }

    /// Sets a single-precision uniform, given by its encoding.
    pub fn set_float(&self, name: &str, value: u32) -> (r: Result<Command, ShaderError>)
        ensures
            self.uniform_set(
                name@,
                Command::Uniform1fv { location: self.location(name@), bits: value },
                r,
            ),
    {
        match self.get_uniform_location(name) {
            Ok(location) => Ok(Command::Uniform1fv { location, bits: value }),
            Err(e) => Err(e),
        }
    }
}

} // verus!
