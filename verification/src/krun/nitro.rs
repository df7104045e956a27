//! The configuration of a machine that runs as a Nitro enclave.
use vstd::prelude::*;

use super::config::ContextConfig;
use super::resources::{FsSource, NetworkInterfaceConfig};
use crate::net::device::VirtioNetBackend;

verus! {

/// The error of an incomplete configuration: `-EINVAL`.
pub const NITRO_EINVAL: i32 = -22;

/// What an enclave is started with.
#[derive(Debug, PartialEq, Eq)]
pub struct NitroEnclave {
    pub mem_size_mib: usize,
    pub vcpus: u8,
    pub rootfs: String,
    pub exec_path: String,
    pub exec_args: String,
    pub exec_env: String,
    pub net_unixfd: Option<i32>,
    pub output_path: String,
    pub debug: bool,
}

/// The directory of the first file system.
pub open spec fn rootfs_of(ctx: ContextConfig) -> Option<String> {
    if ctx.vmr.fs@.len() > 0 {
        match ctx.vmr.fs@[0].source {
            FsSource::Path { root_dir, .. } => Some(root_dir),
            FsSource::Custom => None,
        }
    } else {
        None
    }
}

/// Whether an enclave can have the network devices `net`: one at the most, and that by a
/// descriptor of a stream.
pub open spec fn nitro_net(net: Seq<NetworkInterfaceConfig>) -> Option<Option<i32>> {
    if net.len() == 0 {
        Some(None)
    } else if net.len() == 1 {
        match net[0].backend {
            VirtioNetBackend::UnixstreamFd(fd) => Some(Some(fd)),
            _ => None,
        }
    } else {
        None
    }
}

/// The enclave that `ctx` describes; none if something is missing.
pub open spec fn enclave_of(ctx: ContextConfig, debug: bool) -> Option<NitroEnclave> {
    match (
        ctx.vmr.vm_config.mem_size_mib,
        ctx.vmr.vm_config.vcpu_count,
        rootfs_of(ctx),
        ctx.exec_path,
        ctx.env,
        ctx.args,
        nitro_net(ctx.vmr.net@),
        ctx.console_output,
    ) {
        (
            Some(mem_size_mib),
            Some(vcpus),
            Some(rootfs),
            Some(exec_path),
            Some(exec_env),
            Some(exec_args),
            Some(net_unixfd),
            Some(output_path),
        ) => Some(
            NitroEnclave {
                mem_size_mib,
                vcpus,
                rootfs,
                exec_path,
                exec_args,
                exec_env,
                net_unixfd,
                output_path,
                debug,
            },
        ),
        _ => None,
    }
}

impl NitroEnclave {
    /// The enclave that `ctx` describes. The memory, the processors, a directory for the root
    /// file system, the program with its environment and its arguments, and an output have
    /// to be configured.
    pub fn from_config(ctx: ContextConfig, debug: bool) -> (res: Result<NitroEnclave, i32>)
        ensures
            match res {
                Ok(enclave) => enclave_of(ctx, debug) == Some(enclave),
                Err(code) => enclave_of(ctx, debug) is None && code == NITRO_EINVAL,
            },
    {
        let mem_size_mib: usize = match ctx.vmr.vm_config.mem_size_mib {
            Some(size) => size,
            None => return Err(NITRO_EINVAL),
        };
        let vcpus: u8 = match ctx.vmr.vm_config.vcpu_count {
            Some(count) => count,
            None => return Err(NITRO_EINVAL),
        };
        if ctx.vmr.fs.len() == 0 {
            return Err(NITRO_EINVAL);
        }
        let rootfs = match &ctx.vmr.fs[0].source {
            FsSource::Path { root_dir, .. } => root_dir.clone(),
            FsSource::Custom => return Err(NITRO_EINVAL),
        };
        let net_unixfd: Option<i32> = if ctx.vmr.net.len() == 0 {
            None
        } else if ctx.vmr.net.len() == 1 {
            match &ctx.vmr.net[0].backend {
                VirtioNetBackend::UnixstreamFd(fd) => Some(*fd),
                _ => return Err(NITRO_EINVAL),
            }
        } else {
            return Err(NITRO_EINVAL);
        };
        match (ctx.exec_path, ctx.env, ctx.args, ctx.console_output) {
            (Some(exec_path), Some(exec_env), Some(exec_args), Some(output_path)) => Ok(
                NitroEnclave {
                    mem_size_mib,
                    vcpus,
                    rootfs,
                    exec_path,
                    exec_args,
                    exec_env,
                    net_unixfd,
                    output_path,
                    debug,
                },
            ),
            _ => Err(NITRO_EINVAL),
        }
    }
}

/// An enclave is described exactly if everything that it needs is configured, and each part of
/// it is what is configured under that name.
pub proof fn enclaves_are_complete(ctx: ContextConfig, debug: bool)
    ensures
        enclave_of(ctx, debug) is Some <==> {
            &&& ctx.vmr.vm_config.mem_size_mib is Some && ctx.vmr.vm_config.vcpu_count is Some
            &&& ctx.vmr.fs@.len() > 0 && ctx.vmr.fs@[0].source is Path
            &&& ctx.exec_path is Some && ctx.env is Some && ctx.args is Some
            &&& ctx.console_output is Some
            &&& ctx.vmr.net@.len() <= 1
            &&& ctx.vmr.net@.len() == 1 ==> ctx.vmr.net@[0].backend is UnixstreamFd
        },
        enclave_of(ctx, debug) matches Some(enclave) ==> {
            &&& Some(enclave.mem_size_mib) == ctx.vmr.vm_config.mem_size_mib
            &&& Some(enclave.vcpus) == ctx.vmr.vm_config.vcpu_count
            &&& enclave.rootfs == ctx.vmr.fs@[0].source->root_dir
            &&& Some(enclave.exec_path) == ctx.exec_path
            &&& Some(enclave.exec_args) == ctx.args
            &&& Some(enclave.exec_env) == ctx.env
            &&& Some(enclave.output_path) == ctx.console_output
            &&& enclave.debug == debug
            &&& enclave.net_unixfd is Some <==> ctx.vmr.net@.len() == 1
            &&& enclave.net_unixfd matches Some(fd) ==> ctx.vmr.net@[0].backend
                == VirtioNetBackend::UnixstreamFd(fd)
        },
{
}

} // verus!
